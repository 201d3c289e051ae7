//! The metadata header of a post source file: a block of `key: value`
//! lines preceding the markdown body. Parsing is permissive toward
//! unrecognized keys; the required fields are `id`, `title` and
//! `publish`, with optional `update`, `tags` and `draft`.

use vstd::prelude::*;

use crate::text::{
    chars_eq, chars_of, copy_range, find_char, find_from, lemma_find_from, parse_u64,
    parse_u64_spec, split_at, split_at_char, string_of, trim, trim_spec,
};

verus! {

/// A header field named by an error.
#[derive(Clone, Copy, Debug, PartialEq, Eq, Structural)]
pub enum HeaderField {
    Id,
    Title,
    Publish,
    Update,
    Tags,
    Draft,
}

/// A defect found while parsing a header block, naming the offending field.
#[derive(Clone, Copy, Debug, PartialEq, Eq, Structural)]
pub enum HeaderError {
    /// A required field is absent or has an empty value.
    MissingField(HeaderField),
    /// A timestamp field does not hold a decimal `u64`.
    MalformedTimestamp(HeaderField),
    /// The draft field holds neither `true` nor `false`.
    MalformedFlag(HeaderField),
}

/// The key of a header line: the text before the first colon, trimmed;
/// a line without a colon has no key and is ignored.
pub open spec fn key_of(line: Seq<char>) -> Option<Seq<char>> {
    let k = find_from(line, ':', 0);
    if k >= line.len() {
        None
    } else {
        Some(trim_spec(line.subrange(0, k)))
    }
}

/// The value of a header line: the text after the first colon, trimmed.
pub open spec fn value_of(line: Seq<char>) -> Seq<char> {
    let k = find_from(line, ':', 0);
    if k >= line.len() {
        Seq::empty()
    } else {
        trim_spec(line.subrange(k + 1, line.len() as int))
    }
}

/// The value of the first line whose key is `key`, if any.
pub open spec fn lookup_field(lines: Seq<Seq<char>>, key: Seq<char>) -> Option<Seq<char>>
    decreases lines.len(),
{
    if lines.len() == 0 {
        None
    } else if key_of(lines.first()) == Some(key) {
        Some(value_of(lines.first()))
    } else {
        lookup_field(lines.skip(1), key)
    }
}

/// The value of field `key` in header text `s`.
pub open spec fn field_spec(s: Seq<char>, key: Seq<char>) -> Option<Seq<char>> {
    lookup_field(split_at(s, '\n'), key)
}

/// The pieces of a tags value: split at commas, trimmed, empties dropped.
pub open spec fn clean_tags(pieces: Seq<Seq<char>>) -> Seq<Seq<char>>
    decreases pieces.len(),
{
    if pieces.len() == 0 {
        Seq::empty()
    } else {
        let rest = clean_tags(pieces.drop_last());
        let t = trim_spec(pieces.last());
        if t.len() == 0 {
            rest
        } else {
            rest.push(t)
        }
    }
}

/// `ts` with every repetition of an earlier element removed.
pub open spec fn dedup_tags(ts: Seq<Seq<char>>) -> Seq<Seq<char>>
    decreases ts.len(),
{
    if ts.len() == 0 {
        Seq::empty()
    } else {
        let rest = dedup_tags(ts.drop_last());
        if rest.contains(ts.last()) {
            rest
        } else {
            rest.push(ts.last())
        }
    }
}

/// The tag set of header text `s`: an absent tags field means no tags.
pub open spec fn tags_spec(s: Seq<char>) -> Seq<Seq<char>> {
    match field_spec(s, "tags"@) {
        Option::None => Seq::empty(),
        Option::Some(v) => dedup_tags(clean_tags(split_at(v, ','))),
    }
}

/// The parsed fields of a header block.
pub ghost struct HeaderView {
    pub id: Seq<char>,
    pub title: Seq<char>,
    pub publish: u64,
    pub update: Option<u64>,
    pub tags: Seq<Seq<char>>,
    pub draft: bool,
}

/// What parsing header text `s` yields: the structured fields, or the
/// first defect in field order `id`, `title`, `publish`, `update`, `draft`.
pub open spec fn header_spec(s: Seq<char>) -> Result<HeaderView, HeaderError> {
    let id = field_spec(s, "id"@);
    let title = field_spec(s, "title"@);
    let publish = field_spec(s, "publish"@);
    let update = field_spec(s, "update"@);
    let draft = field_spec(s, "draft"@);
    if id is None || id.unwrap().len() == 0 {
        Err(HeaderError::MissingField(HeaderField::Id))
    } else if title is None || title.unwrap().len() == 0 {
        Err(HeaderError::MissingField(HeaderField::Title))
    } else if publish is None || publish.unwrap().len() == 0 {
        Err(HeaderError::MissingField(HeaderField::Publish))
    } else if parse_u64_spec(publish.unwrap()) is None {
        Err(HeaderError::MalformedTimestamp(HeaderField::Publish))
    } else if update is Some && parse_u64_spec(update.unwrap()) is None {
        Err(HeaderError::MalformedTimestamp(HeaderField::Update))
    } else if draft is Some && draft.unwrap() != "true"@ && draft.unwrap() != "false"@ {
        Err(HeaderError::MalformedFlag(HeaderField::Draft))
    } else {
        Ok(HeaderView {
            id: id.unwrap(),
            title: title.unwrap(),
            publish: parse_u64_spec(publish.unwrap()).unwrap(),
            update: match update {
                Option::None => Option::None,
                Option::Some(u) => Option::Some(parse_u64_spec(u).unwrap()),
            },
            tags: tags_spec(s),
            draft: draft == Option::Some("true"@),
        })
    }
}

/// Structured post metadata together with the verbatim header text it was
/// parsed from, so that serializing a post reproduces its header exactly.
#[derive(Clone, Debug)]
pub struct Header {
    text: String,
    id: String,
    title: String,
    publish: u64,
    update: Option<u64>,
    tags: Vec<String>,
    draft: bool,
}

impl View for Header {
    type V = HeaderView;

    closed spec fn view(&self) -> HeaderView {
        HeaderView {
            id: self.id@,
            title: self.title@,
            publish: self.publish,
            update: self.update,
            tags: self.tags@.map_values(|t: String| t@),
            draft: self.draft,
        }
    }
}

impl Header {
    /// The spec-level verbatim header text.
    pub closed spec fn text_view(self) -> Seq<char> {
        self.text@
    }

    /// A header is well formed when its fields are exactly what parsing
    /// its verbatim text yields.
    pub open spec fn wf(self) -> bool {
        header_spec(self.text_view()) == Ok::<HeaderView, HeaderError>(self@)
    }

    /// The verbatim header text.
    pub fn text(&self) -> (r: &String)
        ensures
            r@ == self.text_view(),
    {
        &self.text
    }

    /// The post's unique, stable identifier.
    pub fn id(&self) -> (r: &String)
        ensures
            r@ == self@.id,
    {
        &self.id
    }

    /// The post's title.
    pub fn title(&self) -> (r: &String)
        ensures
            r@ == self@.title,
    {
        &self.title
    }

    /// The publish timestamp, in seconds.
    pub fn publish(&self) -> (r: u64)
        ensures
            r == self@.publish,
    {
        self.publish
    }

    /// The update timestamp, if the post was ever updated.
    pub fn update(&self) -> (r: Option<u64>)
        ensures
            r == self@.update,
    {
        self.update
    }

    /// The post's tags, without repetition.
    pub fn tags(&self) -> (r: &Vec<String>)
        ensures
            r@.map_values(|t: String| t@) == self@.tags,
    {
        &self.tags
    }

    /// Whether the post is a draft.
    pub fn draft(&self) -> (r: bool)
        ensures
            r == self@.draft,
    {
        self.draft
    }

    /// Parses a header block, exactly as `header_spec` describes.
    pub fn parse(text: &str) -> (r: Result<Header, HeaderError>)
        ensures
            match r {
                Ok(h) => header_spec(text@) == Ok::<HeaderView, HeaderError>(h@)
                    && h.text_view() == text@ && h.wf(),
                Err(e) => header_spec(text@) == Err::<HeaderView, HeaderError>(e),
            },
    {
        let cs = chars_of(text);
        let lines = split_at_char(&cs, '\n');
        proof {
            reveal_strlit("id");
            reveal_strlit("title");
            reveal_strlit("publish");
            reveal_strlit("update");
            reveal_strlit("tags");
            reveal_strlit("draft");
            reveal_strlit("true");
            reveal_strlit("false");
        }
        let id_key = chars_of("id");
        let id = match lookup(&lines, &id_key) {
            Option::Some(v) => v,
            Option::None => {
                return Err(HeaderError::MissingField(HeaderField::Id));
            },
        };
        if id.len() == 0 {
            return Err(HeaderError::MissingField(HeaderField::Id));
        }
        let title_key = chars_of("title");
        let title = match lookup(&lines, &title_key) {
            Option::Some(v) => v,
            Option::None => {
                return Err(HeaderError::MissingField(HeaderField::Title));
            },
        };
        if title.len() == 0 {
            return Err(HeaderError::MissingField(HeaderField::Title));
        }
        let publish_key = chars_of("publish");
        let publish_text = match lookup(&lines, &publish_key) {
            Option::Some(v) => v,
            Option::None => {
                return Err(HeaderError::MissingField(HeaderField::Publish));
            },
        };
        if publish_text.len() == 0 {
            return Err(HeaderError::MissingField(HeaderField::Publish));
        }
        let publish = match parse_u64(&publish_text) {
            Option::Some(n) => n,
            Option::None => {
                return Err(HeaderError::MalformedTimestamp(HeaderField::Publish));
            },
        };
        let update_key = chars_of("update");
        let update = match lookup(&lines, &update_key) {
            Option::None => Option::None,
            Option::Some(v) => match parse_u64(&v) {
                Option::Some(n) => Option::Some(n),
                Option::None => {
                    return Err(HeaderError::MalformedTimestamp(HeaderField::Update));
                },
            },
        };
        let true_lit = chars_of("true");
        let draft_key = chars_of("draft");
        let draft = match lookup(&lines, &draft_key) {
            Option::None => false,
            Option::Some(v) => {
                if chars_eq(&v, &true_lit) {
                    true
                } else {
                    let false_lit = chars_of("false");
                    if chars_eq(&v, &false_lit) {
                        false
                    } else {
                        return Err(HeaderError::MalformedFlag(HeaderField::Draft));
                    }
                }
            },
        };
        let tags_key = chars_of("tags");
        let tags: Vec<String> = match lookup(&lines, &tags_key) {
            Option::None => {
                let none: Vec<String> = Vec::new();
                proof {
                    assert(none@.map_values(|t: String| t@) =~= Seq::<Seq<char>>::empty());
                }
                none
            },
            Option::Some(v) => parse_tags(&v),
        };
        let h = Header {
            text: string_of(&cs),
            id: string_of(&id),
            title: string_of(&title),
            publish,
            update,
            tags,
            draft,
        };
        Ok(h)
    }
}

/// Looks a field up among header lines, exactly as `lookup_field` describes.
fn lookup(lines: &Vec<Vec<char>>, key: &Vec<char>) -> (r: Option<Vec<char>>)
    ensures
        match r {
            Option::Some(v) => lookup_field(lines@.map_values(|l: Vec<char>| l@), key@)
                == Some(v@),
            Option::None => lookup_field(lines@.map_values(|l: Vec<char>| l@), key@) is None,
        },
{
    let ghost all = lines@.map_values(|l: Vec<char>| l@);
    let mut i: usize = 0;
    proof {
        assert(all.skip(0) =~= all);
    }
    while i < lines.len()
        invariant
            i <= lines@.len(),
            all == lines@.map_values(|l: Vec<char>| l@),
            lookup_field(all, key@) == lookup_field(all.skip(i as int), key@),
        decreases lines@.len() - i,
    {
        proof {
            assert(all.skip(i as int).first() == lines@[i as int]@);
            assert(all.skip(i as int).skip(1) =~= all.skip(i as int + 1));
        }
        let line = &lines[i];
        let k = find_char(line, 0, ':');
        proof {
            lemma_find_from(line@, ':', 0);
        }
        if k < line.len() {
            let before = copy_range(line, 0, k);
            let lkey = trim(&before);
            if chars_eq(&lkey, key) {
                let after = copy_range(line, k + 1, line.len());
                let v = trim(&after);
                return Option::Some(v);
            }
        }
        i = i + 1;
    }
    Option::None
}

/// Parses a tags value: split at commas, trimmed, empties dropped, and
/// repetitions removed.
fn parse_tags(v: &Vec<char>) -> (r: Vec<String>)
    ensures
        r@.map_values(|t: String| t@) == dedup_tags(clean_tags(split_at(v@, ','))),
{
    let pieces = split_at_char(v, ',');
    let ghost pviews = pieces@.map_values(|l: Vec<char>| l@);
    let mut cleaned: Vec<Vec<char>> = Vec::new();
    let mut i: usize = 0;
    proof {
        assert(pviews.subrange(0, 0) =~= Seq::<Seq<char>>::empty());
        assert(cleaned@.map_values(|l: Vec<char>| l@) =~= Seq::<Seq<char>>::empty());
    }
    while i < pieces.len()
        invariant
            i <= pieces@.len(),
            pviews == pieces@.map_values(|l: Vec<char>| l@),
            cleaned@.map_values(|l: Vec<char>| l@) == clean_tags(pviews.subrange(0, i as int)),
        decreases pieces@.len() - i,
    {
        let ghost prev = cleaned@.map_values(|l: Vec<char>| l@);
        proof {
            assert(pviews.subrange(0, i as int + 1).drop_last() =~= pviews.subrange(0, i as int));
            assert(pviews.subrange(0, i as int + 1).last() == pviews[i as int]);
        }
        let t = trim(&pieces[i]);
        if t.len() > 0 {
            cleaned.push(t);
            proof {
                assert(cleaned@.map_values(|l: Vec<char>| l@) =~= prev.push(t@));
            }
        }
        i = i + 1;
    }
    proof {
        assert(pviews.subrange(0, pviews.len() as int) =~= pviews);
    }
    let ghost cviews = cleaned@.map_values(|l: Vec<char>| l@);
    let mut r: Vec<String> = Vec::new();
    let mut j: usize = 0;
    proof {
        assert(cviews.subrange(0, 0) =~= Seq::<Seq<char>>::empty());
        assert(r@.map_values(|t: String| t@) =~= Seq::<Seq<char>>::empty());
    }
    while j < cleaned.len()
        invariant
            j <= cleaned@.len(),
            cviews == cleaned@.map_values(|l: Vec<char>| l@),
            r@.map_values(|t: String| t@) == dedup_tags(cviews.subrange(0, j as int)),
        decreases cleaned@.len() - j,
    {
        let ghost prev = r@.map_values(|t: String| t@);
        proof {
            assert(cviews.subrange(0, j as int + 1).drop_last() =~= cviews.subrange(0, j as int));
            assert(cviews.subrange(0, j as int + 1).last() == cviews[j as int]);
        }
        let tag = string_of(&cleaned[j]);
        if !contains_string(&r, &tag) {
            r.push(tag);
            proof {
                assert(r@.map_values(|t: String| t@) =~= prev.push(tag@));
            }
        }
        j = j + 1;
    }
    proof {
        assert(cviews.subrange(0, cviews.len() as int) =~= cviews);
    }
    r
}

/// Whether some string in `v` has the same characters as `s`.
fn contains_string(v: &Vec<String>, s: &String) -> (r: bool)
    ensures
        r == v@.map_values(|t: String| t@).contains(s@),
{
    let mut i: usize = 0;
    while i < v.len()
        invariant
            i <= v@.len(),
            forall|j: int| 0 <= j < i ==> v@[j]@ != s@,
        decreases v@.len() - i,
    {
        if v[i] == *s {
            proof {
                assert(v@.map_values(|t: String| t@)[i as int] == s@);
            }
            return true;
        }
        i = i + 1;
    }
    proof {
        let ghost m = v@.map_values(|t: String| t@);
        if m.contains(s@) {
            let j = choose|j: int| 0 <= j < m.len() && m[j] == s@;
            assert(v@[j]@ == s@);
        }
    }
    false
}

} // verus!
