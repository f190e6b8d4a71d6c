//! Identifiers of issues and of comments.

use vstd::prelude::*;

verus! {

/// The identifier of an issue: the hash of the commit that marks its creation.
///
/// An issue lives in the directory `issues/<shard>/<leaf>`, the shard being the
/// first two characters of its identifier and the leaf the rest.
#[derive(Debug, Eq)]
pub struct Id {
    pub id: String,
}

impl View for Id {
    type V = Seq<char>;

    open spec fn view(&self) -> Seq<char> {
        self.id@
    }
}

impl DeepView for Id {
    type V = Seq<char>;

    open spec fn deep_view(&self) -> Seq<char> {
        self.id@
    }
}

impl PartialEq for Id {
    fn eq(&self, other: &Self) -> (r: bool) {
        self.id == other.id
    }
}

impl vstd::std_specs::cmp::PartialEqSpecImpl for Id {
    open spec fn obeys_eq_spec() -> bool {
        true
    }

    open spec fn eq_spec(&self, other: &Self) -> bool {
        self.id@ == other.id@
    }
}

impl Clone for Id {
    fn clone(&self) -> (r: Self)
        ensures
            r == *self,
    {
        Id { id: self.id.clone() }
    }
}

/// The shard of an identifier of at least two characters.
pub open spec fn shard_of(id: Seq<char>) -> Seq<char> {
    id.subrange(0, 2)
}

/// What follows the shard.
pub open spec fn leaf_of(id: Seq<char>) -> Seq<char> {
    id.subrange(2, id.len() as int)
}

/// The directory below `root` of the issue with the identifier `id`.
pub open spec fn issue_dir(root: Seq<char>, id: Seq<char>) -> Seq<char> {
    root + "/issues/"@ + shard_of(id) + "/"@ + leaf_of(id)
}

impl Id {
    /// The directory of the issue below `root`.
    pub open spec fn path_below(self, root: Seq<char>) -> Seq<char> {
        issue_dir(root, self@)
    }

    /// The identifier that `id` spells.
    pub fn new(id: String) -> (r: Self)
        ensures
            r@ == id@,
            r.id == id,
    {
        Id { id }
    }

    /// The identifier of the issue whose directory is `leaf` inside the shard
    /// directory `shard`.
    pub fn from_dir(shard: &str, leaf: &str) -> (r: Self)
        ensures
            r@ == shard@ + leaf@,
    {
        let mut id = String::from_str(shard);
        id.append(leaf);
        Id { id }
    }

    /// The identifier as text.
    pub fn id(&self) -> (r: &String)
        ensures
            r@ == self@,
    {
        &self.id
    }

    /// The identifiers as texts, in their order.
    pub fn texts(ids: &Vec<Id>) -> (r: Vec<String>)
        ensures
            r.deep_view() == ids.deep_view(),
    {
        let mut out: Vec<String> = Vec::new();
        let mut i: usize = 0;
        while i < ids.len()
            invariant
                i <= ids.len(),
                out.deep_view() == ids.deep_view().take(i as int),
            decreases ids.len() - i,
        {
            let ghost before = out.deep_view();
            out.push(ids[i].id.clone());
            assert(out.deep_view() =~= before.push(ids@[i as int]@));
            assert(ids.deep_view().take(i + 1) =~= before.push(ids@[i as int]@));
            i += 1;
        }
        assert(ids.deep_view().take(ids.len() as int) =~= ids.deep_view());
        out
    }

    /// The directory of the issue: `<root>/issues/<shard>/<leaf>`.
    pub fn path(&self, root: &str) -> (r: String)
        requires
            self@.len() >= 2,
        ensures
            r@ == self.path_below(root@),
    {
        let id = self.id.as_str();
        let n = id.unicode_len();
        let mut r = String::from_str(root);
        r.append("/issues/");
        r.append(id.substring_char(0, 2));
        r.append("/");
        r.append(id.substring_char(2, n));
        r
    }

    /// The first eight characters, for display.
    pub fn short_id(&self) -> (r: &str)
        requires
            self@.len() >= 8,
        ensures
            r@ == self@.subrange(0, 8),
    {
        self.id.as_str().substring_char(0, 8)
    }
}

/// The identifier of a comment: the name of its file.
#[derive(Debug, Eq)]
pub struct CommentId {
    pub id: String,
}

impl View for CommentId {
    type V = Seq<char>;

    open spec fn view(&self) -> Seq<char> {
        self.id@
    }
}

impl PartialEq for CommentId {
    fn eq(&self, other: &Self) -> (r: bool) {
        self.id == other.id
    }
}

impl vstd::std_specs::cmp::PartialEqSpecImpl for CommentId {
    open spec fn obeys_eq_spec() -> bool {
        true
    }

    open spec fn eq_spec(&self, other: &Self) -> bool {
        self.id@ == other.id@
    }
}

impl From<String> for CommentId {
    fn from(id: String) -> (r: Self) {
        CommentId { id }
    }
}

impl vstd::std_specs::convert::FromSpecImpl<String> for CommentId {
    open spec fn obeys_from_spec() -> bool {
        true
    }

    open spec fn from_spec(id: String) -> Self {
        CommentId { id }
    }
}

impl CommentId {
    /// The identifier as text.
    pub fn id(&self) -> (r: &String)
        ensures
            r@ == self@,
    {
        &self.id
    }

    /// The first eight characters, for display.
    pub fn short_id(&self) -> (r: &str)
        requires
            self@.len() >= 8,
        ensures
            r@ == self@.subrange(0, 8),
    {
        self.id.as_str().substring_char(0, 8)
    }
}

} // verus!
