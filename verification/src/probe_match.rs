//! The record of one discovered device.

use crate::text::{chars_of, final_segment, last_segment, starts_with};
use vstd::prelude::*;
use vstd::std_specs::cmp::PartialEqSpecImpl;

verus! {

/// The scope under which a device advertises its name.
pub const NAME_SCOPE: &'static str = "onvif://www.onvif.org/name/";

/// The scope under which a device advertises its hardware model.
pub const HARDWARE_SCOPE: &'static str = "onvif://www.onvif.org/hardware/";

/// The scope under which a device advertises its location.
pub const LOCATION_SCOPE: &'static str = "onvif://www.onvif.org/location/";

/// The advertisement of one device.
///
/// `name`, `hardware` and `location` are never set on their own: they are
/// what the scopes say, see [`scope_value`].
#[derive(Debug)]
pub struct ProbeMatch {
    urn: String,
    name: String,
    hardware: String,
    location: String,
    types: Vec<String>,
    xaddrs: Vec<String>,
    scopes: Vec<String>,
}

/// The mathematical value of a [`ProbeMatch`].
pub struct ProbeMatchView {
    pub urn: Seq<char>,
    pub name: Seq<char>,
    pub hardware: Seq<char>,
    pub location: Seq<char>,
    pub types: Seq<Seq<char>>,
    pub xaddrs: Seq<Seq<char>>,
    pub scopes: Seq<Seq<char>>,
}

/// The attribute that `scopes` give under `prefix`: the final path segment
/// of the last scope that begins with `prefix`, or nothing where no scope
/// does.
pub open spec fn scope_value(scopes: Seq<Seq<char>>, prefix: Seq<char>) -> Seq<char>
    decreases scopes.len(),
{
    if scopes.len() == 0 {
        Seq::empty()
    } else if prefix.is_prefix_of(scopes.last()) {
        last_segment(scopes.last())
    } else {
        scope_value(scopes.drop_last(), prefix)
    }
}

/// The record that an address, device types, scopes and service addresses
/// make up.
pub open spec fn advert(
    urn: Seq<char>,
    types: Seq<Seq<char>>,
    scopes: Seq<Seq<char>>,
    xaddrs: Seq<Seq<char>>,
) -> ProbeMatchView {
    ProbeMatchView {
        urn,
        name: scope_value(scopes, NAME_SCOPE@),
        hardware: scope_value(scopes, HARDWARE_SCOPE@),
        location: scope_value(scopes, LOCATION_SCOPE@),
        types,
        xaddrs,
        scopes,
    }
}

impl ProbeMatchView {
    /// The three attributes are those that the scopes give.
    pub open spec fn consistent(self) -> bool {
        self == advert(self.urn, self.types, self.scopes, self.xaddrs)
    }
}

/// Where several scopes begin with `prefix`, the last of them gives the
/// attribute.
pub proof fn lemma_last_scope_wins(scopes: Seq<Seq<char>>, prefix: Seq<char>, last: int)
    requires
        0 <= last < scopes.len(),
        prefix.is_prefix_of(scopes[last]),
        forall|j: int| last < j < scopes.len() ==> !prefix.is_prefix_of(#[trigger] scopes[j]),
    ensures
        scope_value(scopes, prefix) == last_segment(scopes[last]),
    decreases scopes.len(),
{
    if last < scopes.len() - 1 {
        let shorter = scopes.drop_last();
        assert(shorter[last] == scopes[last]);
        assert forall|j: int| last < j < shorter.len() implies !prefix.is_prefix_of(
            #[trigger] shorter[j],
        ) by {
            assert(shorter[j] == scopes[j]);
        }
        lemma_last_scope_wins(shorter, prefix, last);
    }
}

/// Where no scope begins with `prefix`, the attribute is empty.
pub proof fn lemma_absent_scope_is_empty(scopes: Seq<Seq<char>>, prefix: Seq<char>)
    requires
        forall|j: int| 0 <= j < scopes.len() ==> !prefix.is_prefix_of(#[trigger] scopes[j]),
    ensures
        scope_value(scopes, prefix) == Seq::<char>::empty(),
    decreases scopes.len(),
{
    if scopes.len() > 0 {
        let shorter = scopes.drop_last();
        assert forall|j: int| 0 <= j < shorter.len() implies !prefix.is_prefix_of(
            #[trigger] shorter[j],
        ) by {
            assert(shorter[j] == scopes[j]);
        }
        lemma_absent_scope_is_empty(shorter, prefix);
    }
}

/// The attribute that `scopes` give under `prefix`.
pub fn scope_attribute(scopes: &Vec<String>, prefix: &str) -> (r: String)
    ensures
        r@ == scope_value(scopes.deep_view(), prefix@),
{
    let wanted = chars_of(prefix);
    let ghost all = scopes.deep_view();
    let mut i: usize = scopes.len();
    assert(all.take(i as int) == all);
    while i > 0
        invariant
            i <= scopes.len(),
            all == scopes.deep_view(),
            wanted@ == prefix@,
            scope_value(all, prefix@) == scope_value(all.take(i as int), prefix@),
        decreases i,
    {
        i -= 1;
        let scope = chars_of(scopes[i].as_str());
        assert(all.take(i + 1).last() == scope@);
        assert(all.take(i + 1).drop_last() == all.take(i as int));
        if starts_with(&scope, &wanted) {
            return final_segment(&scope);
        }
    }
    String::new()
}

/// Whether two lists of texts hold the same texts in the same order.
pub fn same_texts(a: &Vec<String>, b: &Vec<String>) -> (r: bool)
    ensures
        r == (a.deep_view() == b.deep_view()),
{
    if a.len() != b.len() {
        assert(a.deep_view().len() != b.deep_view().len());
        return false;
    }
    let mut i: usize = 0;
    while i < a.len()
        invariant
            i <= a.len() == b.len(),
            forall|k: int| 0 <= k < i ==> a@[k]@ == b@[k]@,
        decreases a.len() - i,
    {
        if a[i] != b[i] {
            assert(a.deep_view()[i as int] != b.deep_view()[i as int]);
            return false;
        }
        i += 1;
    }
    assert(a.deep_view() =~= b.deep_view());
    true
}

/// A copy of a list of texts.
pub fn copy_texts(texts: &Vec<String>) -> (r: Vec<String>)
    ensures
        r.deep_view() == texts.deep_view(),
{
    let mut out: Vec<String> = Vec::new();
    let mut i: usize = 0;
    while i < texts.len()
        invariant
            i <= texts.len(),
            out.len() == i,
            forall|k: int| 0 <= k < i ==> out@[k]@ == texts@[k]@,
        decreases texts.len() - i,
    {
        out.push(texts[i].clone());
        i += 1;
    }
    assert(out.deep_view() =~= texts.deep_view());
    out
}

impl View for ProbeMatch {
    type V = ProbeMatchView;

    closed spec fn view(&self) -> ProbeMatchView {
        ProbeMatchView {
            urn: self.urn@,
            name: self.name@,
            hardware: self.hardware@,
            location: self.location@,
            types: self.types.deep_view(),
            xaddrs: self.xaddrs.deep_view(),
            scopes: self.scopes.deep_view(),
        }
    }
}

impl DeepView for ProbeMatch {
    type V = ProbeMatchView;

    open spec fn deep_view(&self) -> ProbeMatchView {
        self@
    }
}

impl ProbeMatch {
    #[verifier::type_invariant]
    spec fn attributes_follow_scopes(self) -> bool {
        self@.consistent()
    }

    /// The record of the device that advertises itself under `urn` with the
    /// given device types, scopes and service addresses.
    pub fn new(urn: String, types: Vec<String>, scopes: Vec<String>, xaddrs: Vec<String>) -> (r:
        Self)
        ensures
            r@ == advert(urn@, types.deep_view(), scopes.deep_view(), xaddrs.deep_view()),
    {
        let name = scope_attribute(&scopes, NAME_SCOPE);
        let hardware = scope_attribute(&scopes, HARDWARE_SCOPE);
        let location = scope_attribute(&scopes, LOCATION_SCOPE);
        ProbeMatch { urn, name, hardware, location, types, xaddrs, scopes }
    }

    /// The stable identifier of the device.
    pub fn urn(&self) -> (r: &String)
        ensures
            r@ == self@.urn,
    {
        &self.urn
    }

    /// The name that the scopes give, empty where they give none.
    pub fn name(&self) -> (r: &String)
        ensures
            r@ == self@.name,
            r@ == scope_value(self@.scopes, NAME_SCOPE@),
    {
        proof {
            use_type_invariant(self);
        }
        &self.name
    }

    /// The hardware model that the scopes give, empty where they give none.
    pub fn hardware(&self) -> (r: &String)
        ensures
            r@ == self@.hardware,
            r@ == scope_value(self@.scopes, HARDWARE_SCOPE@),
    {
        proof {
            use_type_invariant(self);
        }
        &self.hardware
    }

    /// The location that the scopes give, empty where they give none.
    pub fn location(&self) -> (r: &String)
        ensures
            r@ == self@.location,
            r@ == scope_value(self@.scopes, LOCATION_SCOPE@),
    {
        proof {
            use_type_invariant(self);
        }
        &self.location
    }

    /// The device types, in the order of the reply.
    pub fn types(&self) -> (r: &Vec<String>)
        ensures
            r.deep_view() == self@.types,
    {
        &self.types
    }

    /// The service addresses, in the order of the reply.
    pub fn xaddrs(&self) -> (r: &Vec<String>)
        ensures
            r.deep_view() == self@.xaddrs,
    {
        &self.xaddrs
    }

    /// The scopes as the device sent them.
    pub fn scopes(&self) -> (r: &Vec<String>)
        ensures
            r.deep_view() == self@.scopes,
    {
        &self.scopes
    }
}

impl Clone for ProbeMatch {
    fn clone(&self) -> (r: Self)
        ensures
            r@ == self@,
    {
        proof {
            use_type_invariant(self);
        }
        ProbeMatch {
            urn: self.urn.clone(),
            name: self.name.clone(),
            hardware: self.hardware.clone(),
            location: self.location.clone(),
            types: copy_texts(&self.types),
            xaddrs: copy_texts(&self.xaddrs),
            scopes: copy_texts(&self.scopes),
        }
    }
}

impl PartialEq for ProbeMatch {
    /// Two records are equal when every field is.
    fn eq(&self, other: &Self) -> (r: bool) {
        self.urn == other.urn && self.name == other.name && self.hardware == other.hardware
            && self.location == other.location && same_texts(&self.types, &other.types)
            && same_texts(&self.xaddrs, &other.xaddrs) && same_texts(&self.scopes, &other.scopes)
    }
}

impl Eq for ProbeMatch {

}

impl PartialEqSpecImpl for ProbeMatch {
    open spec fn obeys_eq_spec() -> bool {
        true
    }

    open spec fn eq_spec(&self, other: &Self) -> bool {
        self@ == other@
    }
}

} // verus!
