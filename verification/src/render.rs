//! Rendering: HTML escaping, fenced code block rendering with a fail-open
//! fallback, and a line-based markdown renderer that escapes all text
//! content and routes fenced code blocks through the code block renderer.

use vstd::prelude::*;

use crate::text::{chars_eq, chars_of, copy_range, split_at, split_at_char, string_of, trim,
    trim_spec};

verus! {

/// What one character contributes to escaped HTML text.
pub open spec fn escape_char(c: char) -> Seq<char> {
    if c == '&' {
        "&amp;"@
    } else if c == '<' {
        "&lt;"@
    } else if c == '>' {
        "&gt;"@
    } else if c == '"' {
        "&quot;"@
    } else if c == '\'' {
        "&#39;"@
    } else {
        seq![c]
    }
}

/// `s` with every markup-significant character replaced by its entity.
pub open spec fn escape(s: Seq<char>) -> Seq<char>
    decreases s.len(),
{
    if s.len() == 0 {
        Seq::empty()
    } else {
        escape_char(s[0]) + escape(s.skip(1))
    }
}

/// Appends a copy of `src` to `dst`.
fn append_copy(dst: &mut Vec<char>, src: &Vec<char>)
    ensures
        final(dst)@ == old(dst)@ + src@,
{
    let mut i: usize = 0;
    proof {
        assert(dst@ =~= old(dst)@ + src@.subrange(0, 0));
    }
    while i < src.len()
        invariant
            i <= src@.len(),
            dst@ == old(dst)@ + src@.subrange(0, i as int),
        decreases src@.len() - i,
    {
        dst.push(src[i]);
        i = i + 1;
        proof {
            assert(dst@ =~= old(dst)@ + src@.subrange(0, i as int));
        }
    }
    proof {
        assert(dst@ =~= old(dst)@ + src@);
    }
}

/// Appends the characters of a literal to `dst`.
fn append_lit(dst: &mut Vec<char>, s: &str)
    ensures
        final(dst)@ == old(dst)@ + s@,
{
    let cs = chars_of(s);
    append_copy(dst, &cs);
}

/// Escapes `s`, exactly as `escape` describes.
pub fn escape_chars(s: &Vec<char>) -> (r: Vec<char>)
    ensures
        r@ == escape(s@),
{
    let mut r: Vec<char> = Vec::new();
    let mut i: usize = 0;
    proof {
        assert(s@.skip(0) =~= s@);
        assert(r@ + escape(s@) =~= escape(s@));
    }
    while i < s.len()
        invariant
            i <= s@.len(),
            r@ + escape(s@.skip(i as int)) == escape(s@),
        decreases s@.len() - i,
    {
        let ghost prev = r@;
        proof {
            assert(s@.skip(i as int)[0] == s@[i as int]);
            assert(s@.skip(i as int).skip(1) =~= s@.skip(i as int + 1));
        }
        let c = s[i];
        if c == '&' {
            proof {
                reveal_strlit("&amp;");
            }
            append_lit(&mut r, "&amp;");
        } else if c == '<' {
            proof {
                reveal_strlit("&lt;");
            }
            append_lit(&mut r, "&lt;");
        } else if c == '>' {
            proof {
                reveal_strlit("&gt;");
            }
            append_lit(&mut r, "&gt;");
        } else if c == '"' {
            proof {
                reveal_strlit("&quot;");
            }
            append_lit(&mut r, "&quot;");
        } else if c == '\'' {
            proof {
                reveal_strlit("&#39;");
            }
            append_lit(&mut r, "&#39;");
        } else {
            r.push(c);
        }
        proof {
            assert(r@ =~= prev + escape_char(c));
            assert(prev + escape_char(c) + escape(s@.skip(i as int + 1)) =~= prev + (escape_char(c)
                + escape(s@.skip(i as int + 1))));
        }
        i = i + 1;
    }
    proof {
        assert(r@ =~= escape(s@));
    }
    r
}

/// Escapes all markup-significant characters of `s`.
pub fn escape_html(s: &str) -> (r: String)
    ensures
        r@ == escape(s@),
{
    let cs = chars_of(s);
    let e = escape_chars(&cs);
    string_of(&e)
}

/// The language tags the code block renderer recognizes for highlighting.
pub open spec fn recognized_lang(lang: Seq<char>) -> bool {
    ||| lang == "rust"@
    ||| lang == "c"@
    ||| lang == "cpp"@
    ||| lang == "python"@
    ||| lang == "sh"@
    ||| lang == "toml"@
}

/// Highlighted markup for a recognized language: the escaped code inside a
/// language-annotated code element.
pub open spec fn highlighted_html(lang: Seq<char>, code: Seq<char>) -> Seq<char> {
    "<pre><code class=\"language-"@ + lang + "\">"@ + escape(code) + "</code></pre>"@
}

/// The fail-open fallback: the escaped code inside a plain code element.
pub open spec fn plain_html(code: Seq<char>) -> Seq<char> {
    "<pre><code>"@ + escape(code) + "</code></pre>"@
}

/// What rendering a fenced code block yields.
pub open spec fn code_block_html(lang: Seq<char>, code: Seq<char>) -> Seq<char> {
    if recognized_lang(lang) {
        highlighted_html(lang, code)
    } else {
        plain_html(code)
    }
}

/// The outcome of rendering a fenced code block: highlighted markup for a
/// recognized language, or escaped plain text as the fail-open fallback.
/// Rendering never fails because of an unknown language tag.
#[derive(Clone, Debug)]
pub enum CodeHtml {
    Highlighted(String),
    Plain(String),
}

/// Decides whether `lang` is a recognized language tag.
fn recognized_exec(lang: &Vec<char>) -> (r: bool)
    ensures
        r == recognized_lang(lang@),
{
    let rust_lit = chars_of("rust");
    let c_lit = chars_of("c");
    let cpp_lit = chars_of("cpp");
    let python_lit = chars_of("python");
    let sh_lit = chars_of("sh");
    let toml_lit = chars_of("toml");
    chars_eq(lang, &rust_lit) || chars_eq(lang, &c_lit) || chars_eq(lang, &cpp_lit) || chars_eq(
        lang,
        &python_lit,
    ) || chars_eq(lang, &sh_lit) || chars_eq(lang, &toml_lit)
}

/// Renders a fenced code block's characters, exactly as `code_block_html`
/// describes.
pub fn render_code_chars(lang: &Vec<char>, code: &Vec<char>) -> (r: Vec<char>)
    ensures
        r@ == code_block_html(lang@, code@),
{
    let esc = escape_chars(code);
    let mut r: Vec<char> = Vec::new();
    if recognized_exec(lang) {
        append_lit(&mut r, "<pre><code class=\"language-");
        append_copy(&mut r, lang);
        append_lit(&mut r, "\">");
        append_copy(&mut r, &esc);
        append_lit(&mut r, "</code></pre>");
        proof {
            assert(r@ =~= highlighted_html(lang@, code@));
        }
    } else {
        append_lit(&mut r, "<pre><code>");
        append_copy(&mut r, &esc);
        append_lit(&mut r, "</code></pre>");
        proof {
            assert(r@ =~= plain_html(code@));
        }
    }
    r
}

/// Renders a fenced code block: highlighted markup for a recognized
/// language tag, and escaped plain text for an unrecognized one.
pub fn render_code_block(lang: &str, code: &str) -> (r: CodeHtml)
    ensures
        match r {
            CodeHtml::Highlighted(s) => recognized_lang(lang@) && s@ == highlighted_html(
                lang@,
                code@,
            ),
            CodeHtml::Plain(s) => !recognized_lang(lang@) && s@ == plain_html(code@),
        },
{
    let lv = chars_of(lang);
    let cv = chars_of(code);
    let html = render_code_chars(&lv, &cv);
    if recognized_exec(&lv) {
        CodeHtml::Highlighted(string_of(&html))
    } else {
        CodeHtml::Plain(string_of(&html))
    }
}

/// A single newline.
pub open spec fn nl() -> Seq<char> {
    seq!['\n']
}

/// Whether a line holds only whitespace.
pub open spec fn is_blank(l: Seq<char>) -> bool {
    trim_spec(l).len() == 0
}

/// Whether a line opens a fenced code block.
pub open spec fn is_fence(l: Seq<char>) -> bool {
    l.len() >= 3 && l.subrange(0, 3) == "```"@
}

/// The language tag of a fence line: what follows the backticks, trimmed.
pub open spec fn fence_lang(l: Seq<char>) -> Seq<char> {
    trim_spec(l.subrange(3, l.len() as int))
}

/// Whether a line closes a fenced code block.
pub open spec fn is_close(l: Seq<char>) -> bool {
    trim_spec(l) == "```"@
}

/// Whether a line continues a paragraph.
pub open spec fn para_line(l: Seq<char>) -> bool {
    !is_blank(l) && !is_fence(l)
}

/// The first line at or after `i` that closes a code block, or the line
/// count when none does.
pub open spec fn find_close(lines: Seq<Seq<char>>, i: int) -> int
    decreases lines.len() - i,
{
    if i >= lines.len() {
        lines.len() as int
    } else if is_close(lines[i]) {
        i
    } else {
        find_close(lines, i + 1)
    }
}

/// `find_close` returns the least closing line at or after `i`.
pub proof fn lemma_find_close(lines: Seq<Seq<char>>, i: int)
    requires
        0 <= i <= lines.len(),
    ensures
        i <= find_close(lines, i) <= lines.len(),
        find_close(lines, i) < lines.len() ==> is_close(lines[find_close(lines, i)]),
        forall|j: int| i <= j < find_close(lines, i) ==> !is_close(lines[j]),
    decreases lines.len() - i,
{
    if i < lines.len() && !is_close(lines[i]) {
        lemma_find_close(lines, i + 1);
    }
}

/// The first line at or after `i` that does not continue a paragraph, or
/// the line count when all do.
pub open spec fn para_end(lines: Seq<Seq<char>>, i: int) -> int
    decreases lines.len() - i,
{
    if i >= lines.len() {
        lines.len() as int
    } else if !para_line(lines[i]) {
        i
    } else {
        para_end(lines, i + 1)
    }
}

/// `para_end` returns the least paragraph-breaking line at or after `i`.
pub proof fn lemma_para_end(lines: Seq<Seq<char>>, i: int)
    requires
        0 <= i <= lines.len(),
    ensures
        i <= para_end(lines, i) <= lines.len(),
        para_end(lines, i) < lines.len() ==> !para_line(lines[para_end(lines, i)]),
        forall|j: int| i <= j < para_end(lines, i) ==> para_line(lines[j]),
    decreases lines.len() - i,
{
    if i < lines.len() && para_line(lines[i]) {
        lemma_para_end(lines, i + 1);
    }
}

/// Lines joined by single newlines.
pub open spec fn join_lines(ls: Seq<Seq<char>>) -> Seq<char>
    decreases ls.len(),
{
    if ls.len() == 0 {
        Seq::empty()
    } else if ls.len() == 1 {
        ls[0]
    } else {
        join_lines(ls.drop_last()) + nl() + ls.last()
    }
}

/// The rendered HTML of the lines from `i` on: blank lines are skipped, a
/// fence line opens a code block running to the next closing line (or the
/// end when unclosed), and any other run of lines is one escaped paragraph.
pub open spec fn render_md_from(lines: Seq<Seq<char>>, i: int) -> Seq<char>
    decreases lines.len() - i,
    when 0 <= i
    via render_md_from_decreases
{
    if i >= lines.len() {
        Seq::empty()
    } else if is_blank(lines[i]) {
        render_md_from(lines, i + 1)
    } else if is_fence(lines[i]) {
        let j = find_close(lines, i + 1);
        let block = code_block_html(fence_lang(lines[i]), join_lines(lines.subrange(i + 1, j)))
            + nl();
        if j < lines.len() {
            block + render_md_from(lines, j + 1)
        } else {
            block
        }
    } else {
        let j = para_end(lines, i + 1);
        let block = "<p>"@ + escape(join_lines(lines.subrange(i, j))) + "</p>"@ + nl();
        block + render_md_from(lines, j)
    }
}

#[via_fn]
proof fn render_md_from_decreases(lines: Seq<Seq<char>>, i: int) {
    if 0 <= i && i < lines.len() {
        if !is_blank(lines[i]) {
            if is_fence(lines[i]) {
                lemma_find_close(lines, i + 1);
            } else {
                lemma_para_end(lines, i + 1);
            }
        }
    }
}

/// The sanitized HTML fragment of a markdown body.
pub open spec fn render_markdown_spec(md: Seq<char>) -> Seq<char> {
    render_md_from(split_at(md, '\n'), 0)
}

/// Decides whether a line holds only whitespace.
fn is_blank_exec(l: &Vec<char>) -> (r: bool)
    ensures
        r == is_blank(l@),
{
    let t = trim(l);
    t.len() == 0
}

/// Decides whether a line opens a fenced code block.
fn is_fence_exec(l: &Vec<char>) -> (r: bool)
    ensures
        r == is_fence(l@),
{
    proof {
        reveal_strlit("```");
    }
    let r = l.len() >= 3 && l[0] == '`' && l[1] == '`' && l[2] == '`';
    proof {
        if r {
            assert(l@.subrange(0, 3) =~= ("```")@);
        } else if l@.len() >= 3 {
            assert(l@.subrange(0, 3)[0] == l@[0]);
            assert(l@.subrange(0, 3)[1] == l@[1]);
            assert(l@.subrange(0, 3)[2] == l@[2]);
        }
    }
    r
}

/// Decides whether a line closes a fenced code block.
fn is_close_exec(l: &Vec<char>) -> (r: bool)
    ensures
        r == is_close(l@),
{
    let t = trim(l);
    let fence_lit = chars_of("```");
    chars_eq(&t, &fence_lit)
}

/// Finds the first closing line at or after `from`.
fn find_close_exec(lines: &Vec<Vec<char>>, from: usize) -> (r: usize)
    requires
        from <= lines@.len(),
    ensures
        r as int == find_close(lines@.map_values(|l: Vec<char>| l@), from as int),
{
    let ghost lv = lines@.map_values(|l: Vec<char>| l@);
    let mut j: usize = from;
    while j < lines.len()
        invariant
            from <= j <= lines@.len(),
            lv == lines@.map_values(|l: Vec<char>| l@),
            find_close(lv, from as int) == find_close(lv, j as int),
        decreases lines@.len() - j,
    {
        if is_close_exec(&lines[j]) {
            return j;
        }
        j = j + 1;
    }
    j
}

/// Finds the first paragraph-breaking line at or after `from`.
fn para_end_exec(lines: &Vec<Vec<char>>, from: usize) -> (r: usize)
    requires
        from <= lines@.len(),
    ensures
        r as int == para_end(lines@.map_values(|l: Vec<char>| l@), from as int),
{
    let ghost lv = lines@.map_values(|l: Vec<char>| l@);
    let mut j: usize = from;
    while j < lines.len()
        invariant
            from <= j <= lines@.len(),
            lv == lines@.map_values(|l: Vec<char>| l@),
            para_end(lv, from as int) == para_end(lv, j as int),
        decreases lines@.len() - j,
    {
        if is_blank_exec(&lines[j]) || is_fence_exec(&lines[j]) {
            return j;
        }
        j = j + 1;
    }
    j
}

/// Joins the lines from `a` to `b` with newlines.
fn join_exec(lines: &Vec<Vec<char>>, a: usize, b: usize) -> (r: Vec<char>)
    requires
        a <= b <= lines@.len(),
    ensures
        r@ == join_lines(lines@.map_values(|l: Vec<char>| l@).subrange(a as int, b as int)),
{
    let ghost lv = lines@.map_values(|l: Vec<char>| l@);
    let mut r: Vec<char> = Vec::new();
    let mut k: usize = a;
    proof {
        assert(r@ =~= join_lines(lv.subrange(a as int, a as int)));
    }
    while k < b
        invariant
            a <= k <= b <= lines@.len(),
            lv == lines@.map_values(|l: Vec<char>| l@),
            r@ == join_lines(lv.subrange(a as int, k as int)),
        decreases b - k,
    {
        let ghost prev = r@;
        proof {
            assert(lv.subrange(a as int, k as int + 1).drop_last() =~= lv.subrange(
                a as int,
                k as int,
            ));
            assert(lv.subrange(a as int, k as int + 1).last() == lv[k as int]);
            assert(lv.subrange(a as int, k as int + 1)[0] == lv[a as int]);
        }
        if k > a {
            r.push('\n');
        }
        append_copy(&mut r, &lines[k]);
        proof {
            if k == a {
                assert(prev =~= Seq::<char>::empty());
                assert(r@ =~= lv[a as int]);
                assert(lv.subrange(a as int, a as int + 1).len() == 1);
            } else {
                assert(r@ =~= prev + nl() + lv[k as int]);
            }
        }
        k = k + 1;
    }
    r
}

/// The first line at or after `i` that holds paragraph text, or the line
/// count when none does.
pub open spec fn find_text_line(lines: Seq<Seq<char>>, i: int) -> int
    decreases lines.len() - i,
{
    if i >= lines.len() {
        lines.len() as int
    } else if para_line(lines[i]) {
        i
    } else {
        find_text_line(lines, i + 1)
    }
}

/// The derived summary of a markdown body: its first paragraph line,
/// trimmed and escaped; empty when the body has no paragraph text.
pub open spec fn summary_spec(md: Seq<char>) -> Seq<char> {
    let lines = split_at(md, '\n');
    let i = find_text_line(lines, 0);
    if i < lines.len() {
        escape(trim_spec(lines[i]))
    } else {
        Seq::empty()
    }
}

/// Derives a post summary, exactly as `summary_spec` describes.
pub fn summary_of(md: &str) -> (r: String)
    ensures
        r@ == summary_spec(md@),
{
    let cs = chars_of(md);
    let lines = split_at_char(&cs, '\n');
    let ghost lv = lines@.map_values(|l: Vec<char>| l@);
    let mut i: usize = 0;
    while i < lines.len()
        invariant
            i <= lines@.len(),
            lv == lines@.map_values(|l: Vec<char>| l@),
            lv == split_at(md@, '\n'),
            find_text_line(lv, 0) == find_text_line(lv, i as int),
        decreases lines@.len() - i,
    {
        if !is_blank_exec(&lines[i]) && !is_fence_exec(&lines[i]) {
            proof {
                assert(lv[i as int] == lines@[i as int]@);
                assert(para_line(lv[i as int]));
                assert(find_text_line(lv, i as int) == i as int);
            }
            let t = trim(&lines[i]);
            let e = escape_chars(&t);
            proof {
                assert(find_text_line(lv, 0) == i as int);
                assert(summary_spec(md@) == escape(trim_spec(lv[i as int])));
                assert(e@ == escape(trim_spec(lv[i as int])));
            }
            return string_of(&e);
        }
        i = i + 1;
    }
    let empty: Vec<char> = Vec::new();
    proof {
        assert(empty@ =~= Seq::<char>::empty());
    }
    string_of(&empty)
}

/// Renders a markdown body into a sanitized HTML fragment, exactly as
/// `render_markdown_spec` describes: all text content escaped, fenced code
/// blocks routed through the code block renderer.
pub fn render_markdown(md: &str) -> (r: String)
    ensures
        r@ == render_markdown_spec(md@),
{
    let cs = chars_of(md);
    let lines = split_at_char(&cs, '\n');
    let ghost lv = lines@.map_values(|l: Vec<char>| l@);
    let mut out: Vec<char> = Vec::new();
    let mut i: usize = 0;
    proof {
        assert(out@ + render_md_from(lv, 0) =~= render_md_from(lv, 0));
    }
    while i < lines.len()
        invariant
            i <= lines@.len(),
            lv == lines@.map_values(|l: Vec<char>| l@),
            out@ + render_md_from(lv, i as int) == render_md_from(lv, 0),
        decreases lines@.len() - i,
    {
        let ghost prev = out@;
        if is_blank_exec(&lines[i]) {
            i = i + 1;
        } else if is_fence_exec(&lines[i]) {
            let j = find_close_exec(&lines, i + 1);
            proof {
                lemma_find_close(lv, i as int + 1);
            }
            let line = &lines[i];
            let lang_raw = copy_range(line, 3, line.len());
            let lang = trim(&lang_raw);
            let code = join_exec(&lines, i + 1, j);
            let html = render_code_chars(&lang, &code);
            append_copy(&mut out, &html);
            out.push('\n');
            proof {
                let block = code_block_html(fence_lang(lv[i as int]), join_lines(
                    lv.subrange(i as int + 1, j as int),
                )) + nl();
                assert(lang@ == fence_lang(lv[i as int]));
                assert(out@ =~= prev + block);
                if j < lines@.len() {
                    assert(prev + block + render_md_from(lv, j as int + 1) =~= prev + (block
                        + render_md_from(lv, j as int + 1)));
                } else {
                    assert(prev + block =~= prev + block);
                }
            }
            if j < lines.len() {
                i = j + 1;
            } else {
                i = j;
                proof {
                    assert(render_md_from(lv, j as int) =~= Seq::<char>::empty());
                    assert(out@ + render_md_from(lv, j as int) =~= out@);
                }
            }
        } else {
            let j = para_end_exec(&lines, i + 1);
            proof {
                lemma_para_end(lv, i as int + 1);
                reveal_strlit("<p>");
                reveal_strlit("</p>");
            }
            let joined = join_exec(&lines, i, j);
            let esc = escape_chars(&joined);
            append_lit(&mut out, "<p>");
            append_copy(&mut out, &esc);
            append_lit(&mut out, "</p>");
            out.push('\n');
            proof {
                let block = ("<p>")@ + escape(join_lines(lv.subrange(i as int, j as int)))
                    + ("</p>")@ + nl();
                assert(out@ =~= prev + block);
                assert(prev + block + render_md_from(lv, j as int) =~= prev + (block
                    + render_md_from(lv, j as int)));
            }
            i = j;
        }
    }
    proof {
        assert(out@ =~= render_md_from(lv, 0));
    }
    string_of(&out)
}

} // verus!
