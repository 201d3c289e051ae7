//! Rendered posts and immutable snapshots: an ordered sequence of posts,
//! descending by publish timestamp with ties broken by ascending id, in
//! which every id is unique. A snapshot is never mutated after
//! construction, only replaced wholesale.

use vstd::prelude::*;

use crate::text::{chars_eq, chars_of, lemma_lex_lt_connected, lemma_lex_lt_trans, lex_lt};

verus! {

/// The spec-level contents of a rendered post.
pub ghost struct RenderedPostView {
    pub id: Seq<char>,
    pub title: Seq<char>,
    pub publish: u64,
    pub update: Option<u64>,
    pub tags: Seq<Seq<char>>,
    pub html: Seq<char>,
    pub summary: Seq<char>,
}

/// A post rendered to HTML, immutable once created.
#[derive(Clone, Debug)]
pub struct RenderedPost {
    pub id: String,
    pub title: String,
    pub publish: u64,
    pub update: Option<u64>,
    pub tags: Vec<String>,
    pub html: String,
    pub summary: String,
}

impl View for RenderedPost {
    type V = RenderedPostView;

    open spec fn view(&self) -> RenderedPostView {
        RenderedPostView {
            id: self.id@,
            title: self.title@,
            publish: self.publish,
            update: self.update,
            tags: self.tags@.map_values(|t: String| t@),
            html: self.html@,
            summary: self.summary@,
        }
    }
}

/// The snapshot order: `p` comes before `q` when it was published later,
/// or at the same time with a lexicographically smaller id.
pub open spec fn post_before(p: RenderedPostView, q: RenderedPostView) -> bool {
    p.publish > q.publish || (p.publish == q.publish && lex_lt(p.id, q.id))
}

/// The snapshot order is transitive.
pub proof fn lemma_post_before_trans(a: RenderedPostView, b: RenderedPostView, c: RenderedPostView)
    requires
        post_before(a, b),
        post_before(b, c),
    ensures
        post_before(a, c),
{
    if a.publish == b.publish && b.publish == c.publish {
        lemma_lex_lt_trans(a.id, b.id, c.id);
    }
}

/// Two posts with different ids are ordered one way or the other.
pub proof fn lemma_post_before_total(a: RenderedPostView, b: RenderedPostView)
    requires
        a.id != b.id,
    ensures
        post_before(a, b) || post_before(b, a),
{
    if a.publish == b.publish {
        if !lex_lt(a.id, b.id) && !lex_lt(b.id, a.id) {
            lemma_lex_lt_connected(a.id, b.id);
        }
    }
}

/// Whether a sequence of posts is strictly ordered by `post_before` and
/// free of repeated ids.
pub open spec fn posts_ordered(ps: Seq<RenderedPost>) -> bool {
    &&& forall|i: int, j: int|
        0 <= i < j < ps.len() ==> post_before(#[trigger] ps[i]@, #[trigger] ps[j]@)
    &&& forall|i: int, j: int|
        0 <= i < j < ps.len() ==> (#[trigger] ps[i]@).id != (#[trigger] ps[j]@).id
}

/// An immutable, fully built collection of rendered posts.
#[derive(Debug)]
pub struct Snapshot {
    posts: Vec<RenderedPost>,
}

impl View for Snapshot {
    type V = Seq<RenderedPost>;

    closed spec fn view(&self) -> Seq<RenderedPost> {
        self.posts@
    }
}

impl Snapshot {
    /// A snapshot is well formed when its posts are strictly ordered and
    /// their ids are unique.
    pub open spec fn wf(self) -> bool {
        posts_ordered(self@)
    }

    /// The ids of the snapshot's posts, in order.
    pub open spec fn spec_ids(self) -> Seq<Seq<char>> {
        self@.map_values(|p: RenderedPost| p@.id)
    }

    /// Whether the snapshot holds a post with id `id`.
    pub open spec fn has_post(self, id: Seq<char>) -> bool {
        exists|i: int| 0 <= i < self@.len() && (#[trigger] self@[i]@).id == id
    }

    /// The empty snapshot.
    pub fn empty() -> (r: Snapshot)
        ensures
            r@ == Seq::<RenderedPost>::empty(),
            r.wf(),
    {
        let posts: Vec<RenderedPost> = Vec::new();
        proof {
            assert(posts@ =~= Seq::<RenderedPost>::empty());
        }
        Snapshot { posts }
    }

    /// Assembles a snapshot from posts already ordered and unique.
    pub fn from_posts(posts: Vec<RenderedPost>) -> (r: Snapshot)
        requires
            posts_ordered(posts@),
        ensures
            r@ == posts@,
            r.wf(),
    {
        Snapshot { posts }
    }

    /// The number of posts.
    pub fn len(&self) -> (r: usize)
        ensures
            r == self@.len(),
    {
        self.posts.len()
    }

    /// The posts, ordered descending by publish timestamp with ties broken
    /// by ascending id.
    pub fn posts(&self) -> (r: &Vec<RenderedPost>)
        ensures
            r@ == self@,
    {
        &self.posts
    }

    /// Looks a post up by id. Absence is a normal not-found result.
    pub fn get_by_id(&self, id: &str) -> (r: Option<&RenderedPost>)
        ensures
            match r {
                Some(p) => self.has_post(id@) && self@.contains(*p) && p@.id == id@,
                None => !self.has_post(id@),
            },
    {
        let idc = chars_of(id);
        let mut i: usize = 0;
        while i < self.posts.len()
            invariant
                i <= self@.len(),
                idc@ == id@,
                forall|j: int| 0 <= j < i ==> (#[trigger] self@[j]@).id != id@,
            decreases self@.len() - i,
        {
            let pc = chars_of(self.posts[i].id.as_str());
            if chars_eq(&pc, &idc) {
                proof {
                    assert(self@.contains(self@[i as int]));
                }
                return Some(&self.posts[i]);
            }
            i = i + 1;
        }
        None
    }
}

/// Snapshot consistency: in a well-formed snapshot the ids are free of
/// duplicates, the number of distinct ids equals the sequence length, and
/// every post in the sequence is reachable by lookup of its id.
pub proof fn lemma_snapshot_consistent(s: Snapshot)
    requires
        s.wf(),
    ensures
        s.spec_ids().no_duplicates(),
        s.spec_ids().to_set().len() == s@.len(),
        forall|i: int| 0 <= i < s@.len() ==> s.has_post((#[trigger] s@[i]@).id),
{
    assert forall|i: int, j: int|
        0 <= i < s.spec_ids().len() && 0 <= j < s.spec_ids().len() && i != j implies s.spec_ids()[i]
        != s.spec_ids()[j] by {
        assert(s.spec_ids()[i] == s@[i]@.id);
        assert(s.spec_ids()[j] == s@[j]@.id);
    }
    s.spec_ids().unique_seq_to_set();
    assert forall|i: int| 0 <= i < s@.len() implies s.has_post((#[trigger] s@[i]@).id) by {
        assert(0 <= i < s@.len() && s@[i]@.id == s@[i]@.id);
    }
}

/// Snapshot ordering: in a well-formed snapshot, posts appear by strictly
/// descending publish timestamp, with equal timestamps ordered by
/// ascending id.
pub proof fn lemma_snapshot_ordering(s: Snapshot, i: int, j: int)
    requires
        s.wf(),
        0 <= i < j < s@.len(),
    ensures
        s@[i]@.publish >= s@[j]@.publish,
        s@[i]@.publish == s@[j]@.publish ==> lex_lt(s@[i]@.id, s@[j]@.id),
{
    assert(post_before(s@[i]@, s@[j]@));
}

} // verus!
