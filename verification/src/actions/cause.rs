use vstd::prelude::*;

verus! {

/// Why a planned action exists.
///
/// `Nothing` stands for "no action needed" and never enters a plan.
#[derive(Debug, Clone, Copy, PartialEq, Eq, Structural)]
pub enum Cause {
    Nothing,
    Pkg,
    Create,
    Update,
    Link,
    Dir,
    Owner,
    Mode,
    Post,
}

impl Cause {
    /// The label under which a cause is reported.
    pub open spec fn label(self) -> Seq<char> {
        match self {
            Cause::Pkg => "PACKAGE_INSTALL"@,
            Cause::Create => "FILE_CREATE"@,
            Cause::Update => "FILE_UPDATE"@,
            Cause::Link => "LINK_CREATE"@,
            Cause::Dir => "DIR_CREATE"@,
            Cause::Owner => "OWNER"@,
            Cause::Mode => "CHMOD"@,
            Cause::Post => "POST_UPDATE"@,
            Cause::Nothing => "NONE"@,
        }
    }

    /// Renders the cause as its label.
    pub fn to_string(&self) -> (r: String)
        ensures
            r@ == self.label(),
    {
        match self {
            Cause::Pkg => "PACKAGE_INSTALL".to_string(),
            Cause::Create => "FILE_CREATE".to_string(),
            Cause::Update => "FILE_UPDATE".to_string(),
            Cause::Link => "LINK_CREATE".to_string(),
            Cause::Dir => "DIR_CREATE".to_string(),
            Cause::Owner => "OWNER".to_string(),
            Cause::Mode => "CHMOD".to_string(),
            Cause::Post => "POST_UPDATE".to_string(),
            Cause::Nothing => "NONE".to_string(),
        }
    }
}

} // verus!
