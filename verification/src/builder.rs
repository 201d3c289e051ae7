//! One rebuild cycle: turn the scanned source file texts into a new
//! immutable snapshot. A file that fails to parse is excluded and
//! reported; it never aborts the rebuild. A file whose id repeats an
//! earlier file's id is likewise excluded and reported.

use vstd::prelude::*;

use crate::header::{HeaderError, HeaderView};
use crate::render::{render_markdown, render_markdown_spec, summary_of, summary_spec};
use crate::snapshot::{
    lemma_post_before_total, lemma_post_before_trans, post_before, posts_ordered, RenderedPost,
    RenderedPostView, Snapshot,
};
use crate::source::{body_part, has_delim, header_part, ParseError, PostSource};
use crate::text::{chars_eq, chars_lt, chars_of};

verus! {

/// One scanned source file: its name, for failure reports, and its text.
#[derive(Clone, Debug)]
pub struct SourceFile {
    pub name: String,
    pub text: String,
}

/// Why one file was excluded from a rebuild.
#[derive(Clone, Copy, Debug, PartialEq, Eq, Structural)]
pub enum BuildIssue {
    /// The file failed to parse.
    Parse(ParseError),
    /// The file's id repeats the id of an earlier file.
    DuplicateId,
}

/// A per-file failure report, delivered to the caller beside the snapshot.
#[derive(Clone, Debug)]
pub struct BuildFailure {
    pub name: String,
    pub issue: BuildIssue,
}

/// The rendered post a source text yields.
pub open spec fn post_of(hv: HeaderView, md: Seq<char>) -> RenderedPostView {
    RenderedPostView {
        id: hv.id,
        title: hv.title,
        publish: hv.publish,
        update: hv.update,
        tags: hv.tags,
        html: render_markdown_spec(md),
        summary: summary_spec(md),
    }
}

/// What building one source text yields: a rendered post, or the parse
/// failure that excludes the file.
#[verifier::opaque]
pub open spec fn build_spec(t: Seq<char>) -> Result<RenderedPostView, ParseError> {
    if !has_delim(t) {
        Err(ParseError::NoDelimiter)
    } else {
        match crate::header::header_spec(header_part(t)) {
            Err(e) => Err(ParseError::Header(e)),
            Ok(hv) => Ok(post_of(hv, body_part(t))),
        }
    }
}

/// The texts of a sequence of source files.
pub open spec fn file_texts(files: Seq<SourceFile>) -> Seq<Seq<char>> {
    files.map_values(|f: SourceFile| f.text@)
}

/// Whether building text `j` succeeds.
pub open spec fn build_ok(ts: Seq<Seq<char>>, j: int) -> bool {
    build_spec(ts[j]) is Ok
}

/// The post built from text `j`.
pub open spec fn built_view(ts: Seq<Seq<char>>, j: int) -> RenderedPostView {
    build_spec(ts[j]).unwrap()
}

/// Whether file `j` contributes a post to the snapshot: it builds, and no
/// earlier file builds a post with the same id.
pub open spec fn included(ts: Seq<Seq<char>>, j: int) -> bool {
    build_ok(ts, j) && forall|k: int|
        0 <= k < j ==> !(#[trigger] build_ok(ts, k) && built_view(ts, k).id == built_view(
            ts,
            j,
        ).id)
}

/// Whether some post in `ps` has the view `v`.
pub open spec fn has_view(ps: Seq<RenderedPost>, v: RenderedPostView) -> bool {
    exists|i: int| 0 <= i < ps.len() && (#[trigger] ps[i])@ == v
}

/// Whether some post in `ps` has the id `x`.
pub open spec fn posts_have_id(ps: Seq<RenderedPost>, x: Seq<char>) -> bool {
    exists|i: int| 0 <= i < ps.len() && (#[trigger] ps[i])@.id == x
}

/// Among the first `j` texts that build a post with id `x`, some first one
/// is included.
proof fn lemma_first_with_id(ts: Seq<Seq<char>>, j: int, x: Seq<char>)
    requires
        0 <= j,
        exists|k: int| 0 <= k < j && #[trigger] build_ok(ts, k) && built_view(ts, k).id == x,
    ensures
        exists|k: int| 0 <= k < j && #[trigger] included(ts, k) && built_view(ts, k).id == x,
    decreases j,
{
    let k0 = choose|k: int| 0 <= k < j && #[trigger] build_ok(ts, k) && built_view(ts, k).id == x;
    if exists|k: int| 0 <= k < k0 && #[trigger] build_ok(ts, k) && built_view(ts, k).id == x {
        lemma_first_with_id(ts, k0, x);
        let k1 = choose|k: int|
            0 <= k < k0 && #[trigger] included(ts, k) && built_view(ts, k).id == x;
        assert(0 <= k1 < j && included(ts, k1) && built_view(ts, k1).id == x);
    } else {
        assert(included(ts, k0));
    }
}

/// Builds one source text into a rendered post, exactly as `build_spec`
/// describes: the header's fields, the rendered markdown body, and the
/// derived summary.
pub fn build_post(text: &str) -> (r: Result<RenderedPost, ParseError>)
    ensures
        match r {
            Ok(p) => build_spec(text@) == Ok::<RenderedPostView, ParseError>(p@),
            Err(e) => build_spec(text@) == Err::<RenderedPostView, ParseError>(e),
        },
{
    proof {
        reveal(build_spec);
    }
    let ps = match PostSource::parse(text) {
        Ok(ps) => ps,
        Err(e) => {
            return Err(e);
        },
    };
    let html = render_markdown(ps.markdown());
    let summary = summary_of(ps.markdown());
    let header = ps.header();
    let p = RenderedPost {
        id: header.id().clone(),
        title: header.title().clone(),
        publish: header.publish(),
        update: header.update(),
        tags: clone_strings(header.tags()),
        html,
        summary,
    };
    Ok(p)
}

/// A copy of a vector of strings, character for character.
fn clone_strings(v: &Vec<String>) -> (r: Vec<String>)
    ensures
        r@.map_values(|t: String| t@) == v@.map_values(|t: String| t@),
{
    let mut r: Vec<String> = Vec::new();
    let mut i: usize = 0;
    proof {
        assert(r@.map_values(|t: String| t@) =~= v@.map_values(|t: String| t@).subrange(0, 0));
    }
    while i < v.len()
        invariant
            i <= v@.len(),
            r@.map_values(|t: String| t@) == v@.map_values(|t: String| t@).subrange(0, i as int),
        decreases v@.len() - i,
    {
        let ghost prev = r@;
        let c = v[i].clone();
        proof {
            assert(c@ == v@[i as int]@);
        }
        r.push(c);
        proof {
            assert(r@ == prev.push(c));
            assert(r@.map_values(|t: String| t@) =~= prev.map_values(|t: String| t@).push(c@));
            assert(prev.map_values(|t: String| t@).push(c@) =~= v@.map_values(
                |t: String| t@,
            ).subrange(0, i as int + 1));
        }
        i = i + 1;
    }
    proof {
        assert(v@.map_values(|t: String| t@).subrange(0, v@.len() as int) =~= v@.map_values(
            |t: String| t@,
        ));
    }
    r
}

/// Decides the snapshot order on two posts.
fn before_exec(a: &RenderedPost, b: &RenderedPost) -> (r: bool)
    ensures
        r == post_before(a@, b@),
{
    if a.publish > b.publish {
        true
    } else if a.publish < b.publish {
        false
    } else {
        let ac = chars_of(a.id.as_str());
        let bc = chars_of(b.id.as_str());
        chars_lt(&ac, &bc)
    }
}

/// Decides whether some post in `posts` has the id of `id`.
fn has_id(posts: &Vec<RenderedPost>, id: &String) -> (r: bool)
    ensures
        r == posts_have_id(posts@, id@),
{
    let idc = chars_of(id.as_str());
    let mut i: usize = 0;
    while i < posts.len()
        invariant
            i <= posts@.len(),
            idc@ == id@,
            forall|j: int| 0 <= j < i ==> (#[trigger] posts@[j])@.id != id@,
        decreases posts@.len() - i,
    {
        let pc = chars_of(posts[i].id.as_str());
        if chars_eq(&pc, &idc) {
            return true;
        }
        i = i + 1;
    }
    false
}

/// Inserts a post with a fresh id into an ordered vector, keeping it
/// ordered and preserving which post views are present.
fn insert_sorted(posts: &mut Vec<RenderedPost>, p: RenderedPost)
    requires
        posts_ordered(old(posts)@),
        !posts_have_id(old(posts)@, p@.id),
    ensures
        posts_ordered(final(posts)@),
        final(posts)@.len() == old(posts)@.len() + 1,
        has_view(final(posts)@, p@),
        forall|v: RenderedPostView| has_view(old(posts)@, v) ==> has_view(final(posts)@, v),
        forall|i: int|
            0 <= i < final(posts)@.len() ==> (#[trigger] final(posts)@[i])@ == p@ || has_view(
                old(posts)@,
                final(posts)@[i]@,
            ),
{
    let ghost s0 = posts@;
    let mut k: usize = 0;
    while k < posts.len() && before_exec(&posts[k], &p)
        invariant
            k <= s0.len(),
            posts@ == s0,
            forall|i: int| 0 <= i < k ==> post_before((#[trigger] s0[i])@, p@),
        decreases s0.len() - k,
    {
        k = k + 1;
    }
    proof {
        if (k as int) < s0.len() {
            assert(s0[k as int]@.id != p@.id);
            lemma_post_before_total(s0[k as int]@, p@);
            assert(post_before(p@, s0[k as int]@));
        }
        s0.insert_ensures(k as int, p);
    }
    posts.insert(k, p);
    let ghost s1 = posts@;
    proof {
        assert(s1 == s0.insert(k as int, p));
        assert(s1[k as int] == p);
        assert forall|i: int, j: int| 0 <= i < j < s1.len() implies post_before(
            (#[trigger] s1[i])@,
            (#[trigger] s1[j])@,
        ) && s1[i]@.id != s1[j]@.id by {
            let ki = k as int;
            if j < ki {
                assert(s1[i] == s0[i] && s1[j] == s0[j]);
            } else if i < ki && j == ki {
                assert(s1[i] == s0[i]);
                assert(post_before(s0[i]@, p@));
                if s0[i]@.id == p@.id {
                    assert(posts_have_id(s0, p@.id));
                }
            } else if i < ki && j > ki {
                assert(s1[i] == s0[i] && s1[j] == s0[j - 1]);
                if i == j - 1 {
                    assert(post_before(s0[i]@, p@));
                    assert(post_before(p@, s0[j - 1]@));
                    lemma_post_before_trans(s0[i]@, p@, s0[j - 1]@);
                }
                if s0[i]@.id == s0[j - 1]@.id {
                    assert(i < j - 1);
                }
            } else if i == ki {
                assert(s1[j] == s0[j - 1]);
                assert(ki <= j - 1 < s0.len());
                assert(post_before(p@, s0[ki]@));
                if ki < j - 1 {
                    lemma_post_before_trans(p@, s0[ki]@, s0[j - 1]@);
                }
                if p@.id == s0[j - 1]@.id {
                    assert(posts_have_id(s0, p@.id));
                }
            } else {
                assert(s1[i] == s0[i - 1] && s1[j] == s0[j - 1]);
            }
        }
        assert(has_view(s1, p@));
        assert forall|v: RenderedPostView| has_view(s0, v) implies has_view(s1, v) by {
            let i = choose|i: int| 0 <= i < s0.len() && (#[trigger] s0[i])@ == v;
            if i < k as int {
                assert(s1[i]@ == v);
            } else {
                assert(s1[i + 1]@ == v);
            }
        }
        assert forall|i: int| 0 <= i < s1.len() implies (#[trigger] s1[i])@ == p@ || has_view(
            s0,
            s1[i]@,
        ) by {
            let ki = k as int;
            if i < ki {
                assert(s0[i]@ == s1[i]@);
            } else if i > ki {
                assert(s0[i - 1]@ == s1[i]@);
            }
        }
    }
}

/// Whether `v` is the post of some included file among the first `bound`.
pub open spec fn from_included(files: Seq<SourceFile>, bound: int, v: RenderedPostView) -> bool {
    exists|j: int|
        0 <= j < bound && #[trigger] included(file_texts(files), j) && v == built_view(
            file_texts(files),
            j,
        )
}

/// Whether `name` names some file among the first `bound` that does not
/// contribute a post.
pub open spec fn names_excluded(files: Seq<SourceFile>, bound: int, name: Seq<char>) -> bool {
    exists|j: int|
        0 <= j < bound && !(#[trigger] included(file_texts(files), j)) && name == files[j].name@
}

/// Widens the file bound of `from_included`.
proof fn lemma_from_included_widen(files: Seq<SourceFile>, b1: int, b2: int, v: RenderedPostView)
    requires
        from_included(files, b1, v),
        b1 <= b2,
    ensures
        from_included(files, b2, v),
{
    let j0 = choose|j: int|
        0 <= j < b1 && #[trigger] included(file_texts(files), j) && v == built_view(
            file_texts(files),
            j,
        );
    assert(0 <= j0 < b2 && included(file_texts(files), j0) && v == built_view(
        file_texts(files),
        j0,
    ));
}

/// Widens the file bound of `names_excluded`.
proof fn lemma_names_excluded_widen(files: Seq<SourceFile>, b1: int, b2: int, name: Seq<char>)
    requires
        names_excluded(files, b1, name),
        b1 <= b2,
    ensures
        names_excluded(files, b2, name),
{
    let j0 = choose|j: int|
        0 <= j < b1 && !(#[trigger] included(file_texts(files), j)) && name == files[j].name@;
    assert(0 <= j0 < b2 && !included(file_texts(files), j0) && name == files[j0].name@);
}

/// Builds a snapshot from the scanned source files. Every file either
/// contributes exactly one post or produces exactly one failure report;
/// a file that fails to parse, or whose id repeats an earlier file's id,
/// is excluded without aborting the rebuild. The snapshot holds exactly
/// the posts of the included files, ordered and with unique ids.
#[verifier::rlimit(100)]
pub fn build_snapshot(files: &Vec<SourceFile>) -> (r: (Snapshot, Vec<BuildFailure>))
    ensures
        r.0.wf(),
        r.0@.len() + r.1@.len() == files@.len(),
        forall|j: int|
            0 <= j < files@.len() && #[trigger] included(file_texts(files@), j) ==> has_view(
                r.0@,
                built_view(file_texts(files@), j),
            ),
        forall|i: int|
            0 <= i < r.0@.len() ==> from_included(
                files@,
                files@.len() as int,
                (#[trigger] r.0@[i])@,
            ),
        forall|k: int|
            0 <= k < r.1@.len() ==> names_excluded(
                files@,
                files@.len() as int,
                (#[trigger] r.1@[k]).name@,
            ),
{
    let ghost ts = file_texts(files@);
    let mut posts: Vec<RenderedPost> = Vec::new();
    let mut failures: Vec<BuildFailure> = Vec::new();
    let mut f: usize = 0;
    while f < files.len()
        invariant
            f <= files@.len(),
            ts == file_texts(files@),
            posts_ordered(posts@),
            posts@.len() + failures@.len() == f,
            forall|j: int|
                0 <= j < f && #[trigger] included(ts, j) ==> has_view(posts@, built_view(ts, j)),
            forall|i: int|
                0 <= i < posts@.len() ==> from_included(files@, f as int, (#[trigger] posts@[i])@),
            forall|k: int|
                0 <= k < failures@.len() ==> names_excluded(
                    files@,
                    f as int,
                    (#[trigger] failures@[k]).name@,
                ),
        decreases files@.len() - f,
    {
        let ghost fi = f as int;
        proof {
            assert(ts[fi] == files@[fi].text@);
        }
        let file = &files[f];
        match build_post(file.text.as_str()) {
            Err(e) => {
                proof {
                    assert(!build_ok(ts, fi));
                    assert(!included(ts, fi));
                }
                let ghost old_failures = failures@;
                failures.push(BuildFailure { name: file.name.clone(), issue: BuildIssue::Parse(e) });
                proof {
                    assert forall|k: int| 0 <= k < failures@.len() implies names_excluded(
                        files@,
                        fi + 1,
                        (#[trigger] failures@[k]).name@,
                    ) by {
                        if k < old_failures.len() {
                            assert(failures@[k] == old_failures[k]);
                            lemma_names_excluded_widen(files@, fi, fi + 1, old_failures[k].name@);
                        } else {
                            assert((failures@[k]).name@ == files@[fi].name@);
                            assert(0 <= fi < fi + 1 && !included(ts, fi) && (failures@[k]).name@
                                == files@[fi].name@);
                        }
                    }
                    assert forall|i: int| 0 <= i < posts@.len() implies from_included(
                        files@,
                        fi + 1,
                        (#[trigger] posts@[i])@,
                    ) by {
                        lemma_from_included_widen(files@, fi, fi + 1, posts@[i]@);
                    }
                }
            },
            Ok(p) => {
                proof {
                    assert(build_ok(ts, fi));
                    assert(built_view(ts, fi) == p@);
                }
                if has_id(&posts, &p.id) {
                    proof {
                        let i0 = choose|i: int|
                            0 <= i < posts@.len() && (#[trigger] posts@[i])@.id == p@.id;
                        assert(from_included(files@, fi, posts@[i0]@));
                        let j0 = choose|j: int|
                            0 <= j < fi && #[trigger] included(ts, j) && posts@[i0]@ == built_view(
                                ts,
                                j,
                            );
                        assert(build_ok(ts, j0) && built_view(ts, j0).id == built_view(ts, fi).id);
                        assert(!included(ts, fi));
                    }
                    let ghost old_failures = failures@;
                    failures.push(
                        BuildFailure { name: file.name.clone(), issue: BuildIssue::DuplicateId },
                    );
                    proof {
                        assert forall|k: int| 0 <= k < failures@.len() implies names_excluded(
                            files@,
                            fi + 1,
                            (#[trigger] failures@[k]).name@,
                        ) by {
                            if k < old_failures.len() {
                                assert(failures@[k] == old_failures[k]);
                                lemma_names_excluded_widen(
                                    files@,
                                    fi,
                                    fi + 1,
                                    old_failures[k].name@,
                                );
                            } else {
                                assert((failures@[k]).name@ == files@[fi].name@);
                                assert(0 <= fi < fi + 1 && !included(ts, fi) && (failures@[k]).name@
                                    == files@[fi].name@);
                            }
                        }
                        assert forall|i: int| 0 <= i < posts@.len() implies from_included(
                            files@,
                            fi + 1,
                            (#[trigger] posts@[i])@,
                        ) by {
                            lemma_from_included_widen(files@, fi, fi + 1, posts@[i]@);
                        }
                    }
                } else {
                    proof {
                        if exists|k: int|
                            0 <= k < fi && #[trigger] build_ok(ts, k) && built_view(ts, k).id
                                == p@.id {
                            lemma_first_with_id(ts, fi, p@.id);
                            let k1 = choose|k: int|
                                0 <= k < fi && #[trigger] included(ts, k) && built_view(ts, k).id
                                    == p@.id;
                            assert(has_view(posts@, built_view(ts, k1)));
                            let i1 = choose|i: int|
                                0 <= i < posts@.len() && (#[trigger] posts@[i])@ == built_view(
                                    ts,
                                    k1,
                                );
                            assert(posts_have_id(posts@, p@.id));
                        }
                        assert(included(ts, fi));
                    }
                    let ghost old_posts = posts@;
                    insert_sorted(&mut posts, p);
                    proof {
                        assert forall|j: int|
                            0 <= j <= fi && #[trigger] included(ts, j) implies has_view(
                            posts@,
                            built_view(ts, j),
                        ) by {
                            if j < fi {
                                assert(has_view(old_posts, built_view(ts, j)));
                            } else {
                                assert(built_view(ts, fi) == p@);
                            }
                        }
                        assert forall|i: int| 0 <= i < posts@.len() implies from_included(
                            files@,
                            fi + 1,
                            (#[trigger] posts@[i])@,
                        ) by {
                            if posts@[i]@ == p@ {
                                assert(0 <= fi < fi + 1 && included(ts, fi) && posts@[i]@
                                    == built_view(ts, fi));
                            } else {
                                assert(has_view(old_posts, posts@[i]@));
                                let i0 = choose|i0: int|
                                    0 <= i0 < old_posts.len() && (#[trigger] old_posts[i0])@
                                        == posts@[i]@;
                                assert(from_included(files@, fi, old_posts[i0]@));
                                lemma_from_included_widen(files@, fi, fi + 1, posts@[i]@);
                            }
                        }
                        assert forall|k: int| 0 <= k < failures@.len() implies names_excluded(
                            files@,
                            fi + 1,
                            (#[trigger] failures@[k]).name@,
                        ) by {
                            lemma_names_excluded_widen(files@, fi, fi + 1, failures@[k].name@);
                        }
                    }
                }
            },
        }
        f = f + 1;
    }
    (Snapshot::from_posts(posts), failures)
}

} // verus!
