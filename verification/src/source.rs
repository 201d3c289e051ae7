//! A post source file: a metadata header block, a fixed delimiter line,
//! and the markdown body. Splitting happens at the first occurrence of
//! the delimiter; serializing reproduces the original text exactly.

use vstd::prelude::*;

use crate::header::{header_spec, Header, HeaderError, HeaderView};
use crate::text::{chars_of, copy_range, string_of};

verus! {

/// The delimiter separating the header block from the markdown body:
/// a line holding exactly three dashes.
pub open spec fn delim() -> Seq<char> {
    seq!['\n', '-', '-', '-', '\n']
}

/// Whether the delimiter occurs in `s` at position `i`.
pub open spec fn delim_at(s: Seq<char>, i: int) -> bool {
    0 <= i && i + 5 <= s.len() && s.subrange(i, i + 5) == delim()
}

/// Whether the delimiter occurs anywhere in `s`.
pub open spec fn has_delim(s: Seq<char>) -> bool {
    exists|i: int| delim_at(s, i)
}

/// The position of the first delimiter occurrence at or after `i`, or -1
/// when there is none.
pub open spec fn delim_pos_from(s: Seq<char>, i: int) -> int
    decreases s.len() - i,
{
    if i + 5 > s.len() {
        -1
    } else if delim_at(s, i) {
        i
    } else {
        delim_pos_from(s, i + 1)
    }
}

/// The position of the first delimiter occurrence in `s`, or -1.
pub open spec fn split_pos(s: Seq<char>) -> int {
    delim_pos_from(s, 0)
}

/// The header part of a source text: everything before the first delimiter.
pub open spec fn header_part(s: Seq<char>) -> Seq<char> {
    s.subrange(0, split_pos(s))
}

/// The markdown part of a source text: everything after the first delimiter.
pub open spec fn body_part(s: Seq<char>) -> Seq<char> {
    s.subrange(split_pos(s) + 5, s.len() as int)
}

/// `delim_pos_from` returns the least occurrence position at or after `i`.
pub proof fn lemma_delim_pos_from(s: Seq<char>, i: int)
    requires
        0 <= i,
    ensures
        delim_pos_from(s, i) == -1 ==> forall|j: int| i <= j ==> !delim_at(s, j),
        delim_pos_from(s, i) != -1 ==> i <= delim_pos_from(s, i) && delim_at(
            s,
            delim_pos_from(s, i),
        ) && forall|j: int| i <= j < delim_pos_from(s, i) ==> !delim_at(s, j),
    decreases s.len() - i,
{
    if i + 5 > s.len() {
        assert(forall|j: int| i <= j ==> !delim_at(s, j));
    } else if !delim_at(s, i) {
        lemma_delim_pos_from(s, i + 1);
    }
}

/// A failure to parse a post source file.
#[derive(Clone, Copy, Debug, PartialEq, Eq, Structural)]
pub enum ParseError {
    /// The delimiter line is absent.
    NoDelimiter,
    /// The header block is defective.
    Header(HeaderError),
}

/// The parsed-but-unrendered representation of one post file.
#[derive(Clone, Debug)]
pub struct PostSource {
    header: Header,
    markdown: String,
}

impl PostSource {
    /// The header of this post source.
    pub closed spec fn spec_header(self) -> Header {
        self.header
    }

    /// The markdown body of this post source.
    pub closed spec fn spec_markdown(self) -> Seq<char> {
        self.markdown@
    }

    /// A post source is well formed when its header is.
    pub open spec fn wf(self) -> bool {
        self.spec_header().wf()
    }

    /// The header of this post source.
    pub fn header(&self) -> (r: &Header)
        ensures
            *r == self.spec_header(),
    {
        &self.header
    }

    /// Mutable access to the header.
    pub fn header_mut(&mut self) -> (r: &mut Header)
        ensures
            *r == old(self).spec_header(),
            final(self).spec_header() == *final(r),
            final(self).spec_markdown() == old(self).spec_markdown(),
    {
        &mut self.header
    }

    /// The markdown body.
    pub fn markdown(&self) -> (r: &str)
        ensures
            r@ == self.spec_markdown(),
    {
        self.markdown.as_str()
    }

    /// Mutable access to the markdown body.
    pub fn markdown_mut(&mut self) -> (r: &mut String)
        ensures
            r@ == old(self).spec_markdown(),
            final(self).spec_markdown() == final(r)@,
            final(self).spec_header() == old(self).spec_header(),
    {
        &mut self.markdown
    }

    /// Parses a source text: splits at the first delimiter occurrence and
    /// parses the header part. Fails with `NoDelimiter` when the text has
    /// no delimiter, and with the header's defect when the header block is
    /// defective.
    pub fn parse(text: &str) -> (r: Result<PostSource, ParseError>)
        ensures
            match r {
                Ok(ps) => has_delim(text@) && ps.spec_header().text_view() == header_part(text@)
                    && header_spec(header_part(text@)) == Ok::<HeaderView, HeaderError>(
                    ps.spec_header()@,
                ) && ps.spec_markdown() == body_part(text@) && ps.wf(),
                Err(ParseError::NoDelimiter) => !has_delim(text@),
                Err(ParseError::Header(e)) => has_delim(text@) && header_spec(header_part(text@))
                    == Err::<HeaderView, HeaderError>(e),
            },
    {
        let cs = chars_of(text);
        let pos = match find_delim(&cs) {
            Option::Some(p) => p,
            Option::None => {
                return Err(ParseError::NoDelimiter);
            },
        };
        proof {
            lemma_delim_pos_from(cs@, 0);
            assert(delim_at(cs@, pos as int));
            assert(has_delim(cs@));
        }
        let n = cs.len();
        let header_chars = copy_range(&cs, 0, pos);
        let body_chars = copy_range(&cs, pos + 5, n);
        let header_text = string_of(&header_chars);
        let header = match Header::parse(header_text.as_str()) {
            Ok(h) => h,
            Err(e) => {
                return Err(ParseError::Header(e));
            },
        };
        Ok(PostSource { header, markdown: string_of(&body_chars) })
    }

    /// Serializes this post source: the verbatim header text, the
    /// delimiter, and the markdown body.
    pub fn to_text(&self) -> (r: String)
        ensures
            r@ == self.spec_header().text_view() + delim() + self.spec_markdown(),
    {
        proof {
            reveal_strlit("\n---\n");
            assert(("\n---\n")@ =~= delim());
        }
        let mut r = self.header.text().clone();
        r.append("\n---\n");
        r.append(self.markdown.as_str());
        r
    }
}

/// Finds the first delimiter occurrence in `cs`.
fn find_delim(cs: &Vec<char>) -> (r: Option<usize>)
    ensures
        match r {
            Option::Some(p) => p as int == split_pos(cs@) && delim_at(cs@, p as int),
            Option::None => split_pos(cs@) == -1 && !has_delim(cs@),
        },
{
    let n = cs.len();
    let mut i: usize = 0;
    while n >= 5 && i <= n - 5
        invariant
            n == cs@.len(),
            i <= n,
            split_pos(cs@) == delim_pos_from(cs@, i as int),
        decreases n - i,
    {
        if delim_check(cs, i) {
            return Option::Some(i);
        }
        i = i + 1;
    }
    proof {
        lemma_delim_pos_from(cs@, 0);
        if has_delim(cs@) {
            let j = choose|j: int| delim_at(cs@, j);
            assert(false);
        }
    }
    Option::None
}

/// Decides whether the delimiter occurs in `cs` at position `i`.
fn delim_check(cs: &Vec<char>, i: usize) -> (r: bool)
    requires
        i + 5 <= cs@.len(),
    ensures
        r == delim_at(cs@, i as int),
{
    let n = cs.len();
    let r = cs[i] == '\n' && cs[i + 1] == '-' && cs[i + 2] == '-' && cs[i + 3] == '-' && cs[i + 4]
        == '\n';
    proof {
        if r {
            assert(cs@.subrange(i as int, i as int + 5) =~= delim());
        } else {
            if delim_at(cs@, i as int) {
                assert(cs@.subrange(i as int, i as int + 5)[0] == cs@[i as int]);
                assert(cs@.subrange(i as int, i as int + 5)[1] == cs@[i as int + 1]);
                assert(cs@.subrange(i as int, i as int + 5)[2] == cs@[i as int + 2]);
                assert(cs@.subrange(i as int, i as int + 5)[3] == cs@[i as int + 3]);
                assert(cs@.subrange(i as int, i as int + 5)[4] == cs@[i as int + 4]);
            }
        }
    }
    r
}

/// Whether `h` can stand as a header part: the delimiter does not occur in
/// it, not even as a suffix that would merge with the delimiter written
/// after it.
pub open spec fn header_text_ok(h: Seq<char>) -> bool {
    !has_delim(h.push('\n'))
}

/// Splitting a formatted source text recovers the header text and the
/// markdown body exactly.
#[verifier::rlimit(50)]
pub proof fn lemma_split_round_trip(h: Seq<char>, m: Seq<char>)
    requires
        header_text_ok(h),
    ensures
        split_pos(h + delim() + m) == h.len(),
        header_part(h + delim() + m) == h,
        body_part(h + delim() + m) == m,
        has_delim(h + delim() + m),
{
    let t = h + delim() + m;
    let n = h.len() as int;
    assert(t.subrange(n, n + 5) =~= delim());
    assert(delim_at(t, n));
    assert forall|i: int| 0 <= i < n implies !delim_at(t, i) by {
        if delim_at(t, i) {
            let hn = h.push('\n');
            if i + 5 <= n {
                assert(hn.subrange(i, i + 5) =~= t.subrange(i, i + 5));
                assert(delim_at(hn, i));
            } else {
                let d = n - i;
                if d == 4 {
                    assert(t[i + 4] == delim()[0]);
                    assert(hn.subrange(i, i + 5) =~= t.subrange(i, i + 5));
                    assert(delim_at(hn, i));
                } else if d == 3 {
                    assert(t[i + 3] == delim()[0]);
                    assert(t.subrange(i, i + 5)[3] == t[i + 3]);
                } else if d == 2 {
                    assert(t[i + 2] == delim()[0]);
                    assert(t.subrange(i, i + 5)[2] == t[i + 2]);
                } else {
                    assert(t[i + 1] == delim()[0]);
                    assert(t.subrange(i, i + 5)[1] == t[i + 1]);
                }
            }
        }
    }
    lemma_delim_pos_from(t, 0);
    if split_pos(t) == -1 {
        assert(!delim_at(t, n));
    }
    assert(split_pos(t) == n);
    assert(header_part(t) =~= h);
    assert(body_part(t) =~= m);
}

/// Round trip: parsing the serialization of a well-formed post source whose
/// header part can stand before the delimiter yields the same header text,
/// the same header fields, and the same markdown body.
pub proof fn lemma_round_trip(ps: PostSource)
    requires
        ps.wf(),
        header_text_ok(ps.spec_header().text_view()),
    ensures
        has_delim(ps.spec_header().text_view() + delim() + ps.spec_markdown()),
        header_part(ps.spec_header().text_view() + delim() + ps.spec_markdown())
            == ps.spec_header().text_view(),
        body_part(ps.spec_header().text_view() + delim() + ps.spec_markdown())
            == ps.spec_markdown(),
        header_spec(header_part(ps.spec_header().text_view() + delim() + ps.spec_markdown()))
            == Ok::<HeaderView, HeaderError>(ps.spec_header()@),
{
    lemma_split_round_trip(ps.spec_header().text_view(), ps.spec_markdown());
}

/// Serializing what was parsed reproduces the original text exactly.
pub proof fn lemma_format_exact(t: Seq<char>)
    requires
        has_delim(t),
    ensures
        header_part(t) + delim() + body_part(t) == t,
{
    lemma_delim_pos_from(t, 0);
    if split_pos(t) == -1 {
        let j = choose|j: int| delim_at(t, j);
        assert(false);
    }
    let p = split_pos(t);
    assert(t.subrange(p, p + 5) == delim());
    assert(header_part(t) + delim() + body_part(t) =~= t);
}

} // verus!
