//! Memory entries, their categories and privacy tiers, and the setting in which they are recalled.

use crate::text::opt_text;
use vstd::prelude::*;

verus! {

/// Who may see a memory.
#[derive(Debug, PartialEq, Eq)]
pub enum MemoryTier {
    /// Everybody.
    Public,
    /// The members of a group.
    Group(String),
    /// Its owner.
    Private(String),
}

/// What a `MemoryTier` says.
pub enum TierView {
    Public,
    Group(Seq<char>),
    Private(Seq<char>),
}

impl View for MemoryTier {
    type V = TierView;

    open spec fn view(&self) -> TierView {
        match self {
            MemoryTier::Public => TierView::Public,
            MemoryTier::Group(id) => TierView::Group(id@),
            MemoryTier::Private(owner) => TierView::Private(owner@),
        }
    }
}

impl Clone for MemoryTier {
    fn clone(&self) -> (r: Self)
        ensures
            r == *self,
    {
        match self {
            MemoryTier::Public => MemoryTier::Public,
            MemoryTier::Group(id) => MemoryTier::Group(id.clone()),
            MemoryTier::Private(owner) => MemoryTier::Private(owner.clone()),
        }
    }
}

/// What kind of thing a memory is.
#[derive(Debug, PartialEq, Eq)]
pub enum MemoryCategory {
    /// Long-term facts, preferences, decisions.
    Core,
    /// Daily session logs.
    Daily,
    /// Conversation context.
    Conversation,
    /// A category of the user's own.
    Custom(String),
}

/// What a `MemoryCategory` says.
pub enum CategoryView {
    Core,
    Daily,
    Conversation,
    Custom(Seq<char>),
}

impl View for MemoryCategory {
    type V = CategoryView;

    open spec fn view(&self) -> CategoryView {
        match self {
            MemoryCategory::Core => CategoryView::Core,
            MemoryCategory::Daily => CategoryView::Daily,
            MemoryCategory::Conversation => CategoryView::Conversation,
            MemoryCategory::Custom(name) => CategoryView::Custom(name@),
        }
    }
}

impl Clone for MemoryCategory {
    fn clone(&self) -> (r: Self)
        ensures
            r == *self,
    {
        match self {
            MemoryCategory::Core => MemoryCategory::Core,
            MemoryCategory::Daily => MemoryCategory::Daily,
            MemoryCategory::Conversation => MemoryCategory::Conversation,
            MemoryCategory::Custom(name) => MemoryCategory::Custom(name.clone()),
        }
    }
}

/// The category in an option.
pub open spec fn opt_category(c: Option<&MemoryCategory>) -> Option<CategoryView> {
    match c {
        Some(c) => Some(c@),
        None => None,
    }
}

/// The name of a category.
pub open spec fn category_name(c: CategoryView) -> Seq<char> {
    match c {
        CategoryView::Core => "core"@,
        CategoryView::Daily => "daily"@,
        CategoryView::Conversation => "conversation"@,
        CategoryView::Custom(name) => name,
    }
}

/// The category that a name stands for.
pub open spec fn category_of(name: Seq<char>) -> CategoryView {
    if name == "core"@ {
        CategoryView::Core
    } else if name == "daily"@ {
        CategoryView::Daily
    } else if name == "conversation"@ {
        CategoryView::Conversation
    } else {
        CategoryView::Custom(name)
    }
}

impl MemoryCategory {
    /// The name of the category.
    pub fn to_string(&self) -> (r: String)
        ensures
            r@ == category_name(self@),
    {
        match self {
            MemoryCategory::Core => "core".to_owned(),
            MemoryCategory::Daily => "daily".to_owned(),
            MemoryCategory::Conversation => "conversation".to_owned(),
            MemoryCategory::Custom(name) => name.clone(),
        }
    }

    /// The category that a name stands for.
    pub fn from_name(name: &str) -> (r: Self)
        ensures
            r@ == category_of(name@),
    {
        if crate::text::str_eq(name, "core") {
            MemoryCategory::Core
        } else if crate::text::str_eq(name, "daily") {
            MemoryCategory::Daily
        } else if crate::text::str_eq(name, "conversation") {
            MemoryCategory::Conversation
        } else {
            MemoryCategory::Custom(name.to_owned())
        }
    }

    /// Whether two categories are the same.
    pub fn same(&self, other: &Self) -> (r: bool)
        ensures
            r == (self@ == other@),
    {
        match (self, other) {
            (MemoryCategory::Core, MemoryCategory::Core) => true,
            (MemoryCategory::Daily, MemoryCategory::Daily) => true,
            (MemoryCategory::Conversation, MemoryCategory::Conversation) => true,
            (MemoryCategory::Custom(a), MemoryCategory::Custom(b)) => {
                crate::text::str_eq(a.as_str(), b.as_str())
            },
            _ => false,
        }
    }
}

/// The name of what a name stands for is that name.
pub proof fn category_names_round_trip(name: Seq<char>)
    ensures
        category_name(category_of(name)) == name,
{
}

/// A memory as it is handed out.
#[derive(Debug)]
pub struct MemoryEntry {
    pub id: String,
    pub key: String,
    pub content: String,
    pub category: MemoryCategory,
    pub timestamp: String,
    pub session_id: Option<String>,
    /// How well it matched, as the bits of a 64-bit floating-point number.
    pub score: Option<u64>,
}

/// What a `MemoryEntry` says.
pub struct EntryView {
    pub id: Seq<char>,
    pub key: Seq<char>,
    pub content: Seq<char>,
    pub category: CategoryView,
    pub timestamp: Seq<char>,
    pub session_id: Option<Seq<char>>,
    pub score: Option<u64>,
}

impl View for MemoryEntry {
    type V = EntryView;

    open spec fn view(&self) -> EntryView {
        EntryView {
            id: self.id@,
            key: self.key@,
            content: self.content@,
            category: self.category@,
            timestamp: self.timestamp@,
            session_id: opt_text(self.session_id),
            score: self.score,
        }
    }
}

impl Clone for MemoryEntry {
    fn clone(&self) -> (r: Self)
        ensures
            r == *self,
    {
        MemoryEntry {
            id: self.id.clone(),
            key: self.key.clone(),
            content: self.content.clone(),
            category: self.category.clone(),
            timestamp: self.timestamp.clone(),
            session_id: self.session_id.clone(),
            score: self.score,
        }
    }
}

/// What entries say.
pub open spec fn entry_views(list: Seq<MemoryEntry>) -> Seq<EntryView> {
    Seq::new(list.len(), |i: int| list[i]@)
}

/// The setting in which memories are recalled.
#[derive(Debug)]
pub struct RecallContext {
    /// Whether this is the main session with the guardian.
    pub is_main_session: bool,
    /// Name of the channel.
    pub channel: Option<String>,
    /// The group, in a group chat.
    pub group_id: Option<String>,
}

/// What a backend without promotion answers.
pub fn promotion_unsupported(backend: &str) -> (r: String)
    ensures
        r@ == backend@ + " backend does not support memory promotion"@,
{
    let mut r = backend.to_owned();
    r.append(" backend does not support memory promotion");
    r
}

/// What a backend without embeddings answers.
pub fn reindex_unsupported(backend: &str) -> (r: String)
    ensures
        r@ == "Reindex not supported by "@ + backend@ + " backend"@,
{
    let mut r = String::from_str("Reindex not supported by ");
    r.append(backend);
    r.append(" backend");
    r
}

/// The categories go by their names, and any other name is a category of the user's own.
pub proof fn names_of_categories(name: Seq<char>)
    ensures
        category_name(CategoryView::Core) == "core"@,
        category_name(CategoryView::Daily) == "daily"@,
        category_name(CategoryView::Conversation) == "conversation"@,
        category_name(CategoryView::Custom(name)) == name,
        category_of("core"@) is Core,
        category_of("daily"@) is Daily,
        category_of("conversation"@) is Conversation,
        name != "core"@ && name != "daily"@ && name != "conversation"@ ==> category_of(name)
            == CategoryView::Custom(name),
{
    reveal_strlit("core");
    reveal_strlit("daily");
    reveal_strlit("conversation");
    assert("core"@.len() == 4 && "daily"@.len() == 5 && "conversation"@.len() == 12);
}

} // verus!
