//! The credentials with which a discovered device is addressed afterwards.

use vstd::prelude::*;

verus! {

/// A device's service address together with the credentials for it.
#[derive(Debug)]
pub struct OnvifDevice {
    xaddr: String,
    user: String,
    password: String,
}

/// The mathematical value of an [`OnvifDevice`].
pub struct OnvifDeviceView {
    pub xaddr: Seq<char>,
    pub user: Seq<char>,
    pub password: Seq<char>,
}

impl View for OnvifDevice {
    type V = OnvifDeviceView;

    closed spec fn view(&self) -> OnvifDeviceView {
        OnvifDeviceView { xaddr: self.xaddr@, user: self.user@, password: self.password@ }
    }
}

impl OnvifDevice {
    /// The service address.
    pub fn xaddr(&self) -> (r: &String)
        ensures
            r@ == self@.xaddr,
    {
        &self.xaddr
    }

    /// The user name.
    pub fn user(&self) -> (r: &String)
        ensures
            r@ == self@.user,
    {
        &self.user
    }
}

/// The field of an [`OnvifDevice`] that was not set when it was built.
#[derive(Debug, Clone, Copy, PartialEq, Eq, Structural)]
pub enum MissingField {
    Xaddr,
    User,
    Password,
}

/// Gathers the fields of an [`OnvifDevice`], in any order.
#[derive(Debug)]
pub struct OnvifDeviceBuilder {
    xaddr: Option<String>,
    user: Option<String>,
    password: Option<String>,
}

/// The mathematical value of an [`OnvifDeviceBuilder`]: the fields set so
/// far.
pub struct OnvifDeviceBuilderView {
    pub xaddr: Option<Seq<char>>,
    pub user: Option<Seq<char>>,
    pub password: Option<Seq<char>>,
}

impl OnvifDeviceBuilderView {
    /// The device that the fields make up, or the first field that is not
    /// set.
    pub open spec fn built(self) -> Result<OnvifDeviceView, MissingField> {
        if self.xaddr is None {
            Err(MissingField::Xaddr)
        } else if self.user is None {
            Err(MissingField::User)
        } else if self.password is None {
            Err(MissingField::Password)
        } else {
            Ok(
                OnvifDeviceView {
                    xaddr: self.xaddr->0,
                    user: self.user->0,
                    password: self.password->0,
                },
            )
        }
    }
}

/// The mathematical value of an optional text.
pub open spec fn text_view(text: Option<String>) -> Option<Seq<char>> {
    match text {
        Some(t) => Some(t@),
        None => None,
    }
}

impl View for OnvifDeviceBuilder {
    type V = OnvifDeviceBuilderView;

    closed spec fn view(&self) -> OnvifDeviceBuilderView {
        OnvifDeviceBuilderView {
            xaddr: text_view(self.xaddr),
            user: text_view(self.user),
            password: text_view(self.password),
        }
    }
}

impl OnvifDeviceBuilder {
    /// A builder with no field set.
    pub fn new() -> (r: Self)
        ensures
            r@ == (OnvifDeviceBuilderView { xaddr: None, user: None, password: None }),
    {
        OnvifDeviceBuilder { xaddr: None, user: None, password: None }
    }

    /// Sets the service address.
    pub fn xaddr(self, value: &str) -> (r: Self)
        ensures
            r@ == (OnvifDeviceBuilderView { xaddr: Some(value@), ..self@ }),
    {
        OnvifDeviceBuilder { xaddr: Some(String::from_str(value)), ..self }
    }

    /// Sets the user name.
    pub fn user(self, value: &str) -> (r: Self)
        ensures
            r@ == (OnvifDeviceBuilderView { user: Some(value@), ..self@ }),
    {
        OnvifDeviceBuilder { user: Some(String::from_str(value)), ..self }
    }

    /// Sets the password.
    pub fn password(self, value: &str) -> (r: Self)
        ensures
            r@ == (OnvifDeviceBuilderView { password: Some(value@), ..self@ }),
    {
        OnvifDeviceBuilder { password: Some(String::from_str(value)), ..self }
    }

    /// The device, once all three fields are set.
    pub fn build(self) -> (r: Result<OnvifDevice, MissingField>)
        ensures
            match self@.built() {
                Ok(device) => r is Ok && r->Ok_0@ == device,
                Err(field) => r == Err::<OnvifDevice, MissingField>(field),
            },
    {
        match self.xaddr {
            None => Err(MissingField::Xaddr),
            Some(xaddr) => match self.user {
                None => Err(MissingField::User),
                Some(user) => match self.password {
                    None => Err(MissingField::Password),
                    Some(password) => Ok(OnvifDevice { xaddr, user, password }),
                },
            },
        }
    }
}

impl Default for OnvifDeviceBuilder {
    fn default() -> (r: Self)
        ensures
            r@ == (OnvifDeviceBuilderView { xaddr: None, user: None, password: None }),
    {
        OnvifDeviceBuilder::new()
    }
}

} // verus!
