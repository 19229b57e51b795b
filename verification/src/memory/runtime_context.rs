//! The setting of a memory operation: visibility, scope and channel.

use crate::text::space::{trim, trimmed};
use crate::text::{opt_owned, opt_str, opt_text, texts};
use vstd::prelude::*;

verus! {

/// How far a memory may be seen.
#[derive(Debug, Clone, Copy, PartialEq, Eq, Structural)]
pub enum MemoryVisibility {
    Public,
    Group,
    Circle,
    Personal,
    Internal,
}

/// The word for a visibility.
pub open spec fn visibility_word(v: MemoryVisibility) -> Seq<char> {
    match v {
        MemoryVisibility::Public => "public"@,
        MemoryVisibility::Group => "group"@,
        MemoryVisibility::Circle => "circle"@,
        MemoryVisibility::Personal => "personal"@,
        MemoryVisibility::Internal => "internal"@,
    }
}

/// The tier of a visibility in a scope: groups and circles carry their scope, if there is one.
pub open spec fn tier_in(v: MemoryVisibility, scope: Seq<char>) -> Seq<char> {
    if (v is Group || v is Circle) && trimmed(scope).len() > 0 {
        visibility_word(v) + ":"@ + trimmed(scope)
    } else {
        visibility_word(v)
    }
}

impl MemoryVisibility {
    /// The word for the visibility.
    pub fn as_nomen_visibility(self) -> (r: &'static str)
        ensures
            r@ == visibility_word(self),
    {
        match self {
            MemoryVisibility::Public => "public",
            MemoryVisibility::Group => "group",
            MemoryVisibility::Circle => "circle",
            MemoryVisibility::Personal => "personal",
            MemoryVisibility::Internal => "internal",
        }
    }

    /// The tier of the visibility in a scope.
    pub fn to_nomen_tier(self, scope: &str) -> (r: String)
        ensures
            r@ == tier_in(self, scope@),
    {
        let scope = trim(scope);
        let scoped = match self {
            MemoryVisibility::Group | MemoryVisibility::Circle => {
                !crate::text::str_eq(scope.as_str(), "")
            },
            _ => false,
        };
        proof {
            reveal_strlit("");
            assert(scope@.len() == 0 ==> scope@ =~= ""@);
        }
        let mut tier = self.as_nomen_visibility().to_owned();
        if scoped {
            tier.append(":");
            tier.append(scope.as_str());
        }
        tier
    }
}

/// The setting of a memory operation.
#[derive(Debug)]
pub struct MemoryRuntimeContext {
    pub visibility: MemoryVisibility,
    pub scope: String,
    pub channel: Option<String>,
}

impl MemoryRuntimeContext {
    /// A setting.
    pub fn new(visibility: MemoryVisibility, scope: &str, channel: Option<&str>) -> (r: Self)
        ensures
            r.visibility == visibility,
            r.scope@ == scope@,
            opt_text(r.channel) == opt_str(channel),
    {
        MemoryRuntimeContext { visibility, scope: scope.to_owned(), channel: opt_owned(channel) }
    }

    /// The tier, with the scope where it has one.
    pub fn nomen_tier(&self) -> (r: String)
        ensures
            r@ == tier_in(self.visibility, self.scope@),
    {
        self.visibility.to_nomen_tier(self.scope.as_str())
    }

    /// The tier without its scope.
    pub fn nomen_base_tier(&self) -> (r: &'static str)
        ensures
            r@ == visibility_word(self.visibility),
    {
        self.visibility.as_nomen_visibility()
    }

    /// The scopes that may be read: the one scope, if there is one.
    pub fn allowed_nomen_scopes(&self) -> (r: Option<Vec<String>>)
        ensures
            match r {
                Some(list) => trimmed(self.scope@).len() > 0 && texts(list@) == seq![
                    trimmed(self.scope@),
                ],
                None => trimmed(self.scope@).len() == 0,
            },
    {
        let scope = trim(self.scope.as_str());
        proof {
            reveal_strlit("");
            assert(scope@.len() == 0 ==> scope@ =~= ""@);
        }
        if crate::text::str_eq(scope.as_str(), "") {
            None
        } else {
            let mut list: Vec<String> = Vec::new();
            list.push(scope);
            assert(texts(list@) =~= seq![trimmed(self.scope@)]);
            Some(list)
        }
    }
}

/// The tier of a group or a circle carries its scope; any other tier, or one without a scope, is the
/// word alone. Different visibilities have different words.
pub proof fn tiers_carry_scopes(v: MemoryVisibility, w: MemoryVisibility, scope: Seq<char>)
    ensures
        trimmed(scope).len() > 0 ==> tier_in(MemoryVisibility::Group, scope) == "group:"@ + trimmed(
            scope,
        ),
        trimmed(scope).len() > 0 ==> tier_in(MemoryVisibility::Circle, scope) == "circle:"@ + trimmed(
            scope,
        ),
        trimmed(scope).len() == 0 ==> tier_in(v, scope) == visibility_word(v),
        v != MemoryVisibility::Group && v != MemoryVisibility::Circle ==> tier_in(v, scope)
            == visibility_word(v),
        visibility_word(MemoryVisibility::Public) == "public"@,
        visibility_word(MemoryVisibility::Personal) == "personal"@,
        visibility_word(MemoryVisibility::Internal) == "internal"@,
        visibility_word(v) == visibility_word(w) ==> v == w,
{
    reveal_strlit("public");
    reveal_strlit("group");
    reveal_strlit("circle");
    reveal_strlit("personal");
    reveal_strlit("internal");
    reveal_strlit(":");
    reveal_strlit("group:");
    reveal_strlit("circle:");
    assert("group"@ + ":"@ =~= "group:"@);
    assert("circle"@ + ":"@ =~= "circle:"@);
    assert("public"@[0] == 'p' && "circle"@[0] == 'c' && "personal"@[0] == 'p' && "internal"@[0]
        == 'i');
    assert("public"@.len() == 6 && "group"@.len() == 5 && "circle"@.len() == 6 && "personal"@.len()
        == 8 && "internal"@.len() == 8);
}

} // verus!
