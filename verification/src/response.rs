//! HTML response assembly data: error responses with their status codes,
//! the response builder, and crawler hints rendered as a robots meta list.

use vstd::prelude::*;
use vstd::string::StringExecFns;

verus! {

/// An error shown to a visitor, mapped to an HTTP status code.
#[derive(Clone, Copy, Debug, PartialEq, Eq, Structural)]
pub enum ErrorResponse {
    Internal,
    PostNotFound,
    StaticResourceNotFound,
    RouteNotFound,
}

/// The status text of an error response, e.g. `404 Not Found`.
pub open spec fn status_text_spec(e: ErrorResponse) -> Seq<char> {
    match e {
        ErrorResponse::Internal => "500 Internal Server Error"@,
        ErrorResponse::PostNotFound => "404 Not Found"@,
        ErrorResponse::StaticResourceNotFound => "404 Not Found"@,
        ErrorResponse::RouteNotFound => "404 Not Found"@,
    }
}

impl ErrorResponse {
    /// The numeric HTTP status code of this error.
    pub fn status_code(&self) -> (r: u16)
        ensures
            r == match *self {
                ErrorResponse::Internal => 500u16,
                ErrorResponse::PostNotFound => 404u16,
                ErrorResponse::StaticResourceNotFound => 404u16,
                ErrorResponse::RouteNotFound => 404u16,
            },
    {
        match self {
            ErrorResponse::Internal => 500,
            ErrorResponse::PostNotFound => 404,
            ErrorResponse::StaticResourceNotFound => 404,
            ErrorResponse::RouteNotFound => 404,
        }
    }

    /// The full status text of this error, code and reason.
    pub fn status_text(&self) -> (r: String)
        ensures
            r@ == status_text_spec(*self),
    {
        match self {
            ErrorResponse::Internal => String::from_str("500 Internal Server Error"),
            ErrorResponse::PostNotFound => String::from_str("404 Not Found"),
            ErrorResponse::StaticResourceNotFound => String::from_str("404 Not Found"),
            ErrorResponse::RouteNotFound => String::from_str("404 Not Found"),
        }
    }
}

/// Crawler directives attached to a served HTML page, controlling how
/// search engines may index, follow, archive, and preview it.
#[derive(Clone, Copy, Debug, PartialEq, Eq, Structural)]
pub struct CrawlerHints {
    pub index: bool,
    pub follow: bool,
    pub archive: bool,
    pub snippet: bool,
    pub image_index: bool,
}

/// The robots meta list of a hint set, e.g. `noindex,nofollow,noarchive,...`.
pub open spec fn meta_list_spec(h: CrawlerHints) -> Seq<char> {
    (if h.index {
        "index"@
    } else {
        "noindex"@
    }) + ","@ + (if h.follow {
        "follow"@
    } else {
        "nofollow"@
    }) + (if h.archive {
        Seq::<char>::empty()
    } else {
        ",noarchive,nocache"@
    }) + (if h.snippet {
        Seq::<char>::empty()
    } else {
        ",nosnippet"@
    }) + (if h.image_index {
        Seq::<char>::empty()
    } else {
        ",noimageindex"@
    })
}

impl CrawlerHints {
    /// The most restrictive hint set: everything forbidden.
    pub fn restrictive() -> (r: Self)
        ensures
            r == (CrawlerHints {
                index: false,
                follow: false,
                archive: false,
                snippet: false,
                image_index: false,
            }),
    {
        Self { index: false, follow: false, archive: false, snippet: false, image_index: false }
    }

    /// The most permissive hint set: everything allowed.
    pub fn permissive() -> (r: Self)
        ensures
            r == (CrawlerHints {
                index: true,
                follow: true,
                archive: true,
                snippet: true,
                image_index: true,
            }),
    {
        Self { index: true, follow: true, archive: true, snippet: true, image_index: true }
    }

    /// This hint set with `index` replaced.
    pub fn with_index(self, index: bool) -> (r: Self)
        ensures
            r == (CrawlerHints { index, ..self }),
    {
        Self { index, ..self }
    }

    /// This hint set with `follow` replaced.
    pub fn with_follow(self, follow: bool) -> (r: Self)
        ensures
            r == (CrawlerHints { follow, ..self }),
    {
        Self { follow, ..self }
    }

    /// This hint set with `archive` replaced.
    pub fn with_archive(self, archive: bool) -> (r: Self)
        ensures
            r == (CrawlerHints { archive, ..self }),
    {
        Self { archive, ..self }
    }

    /// This hint set with `snippet` replaced.
    pub fn with_snippet(self, snippet: bool) -> (r: Self)
        ensures
            r == (CrawlerHints { snippet, ..self }),
    {
        Self { snippet, ..self }
    }

    /// This hint set with `image_index` replaced.
    pub fn with_image_index(self, image_index: bool) -> (r: Self)
        ensures
            r == (CrawlerHints { image_index, ..self }),
    {
        Self { image_index, ..self }
    }

    /// The indexing directive.
    pub fn index_str(self) -> (r: &'static str)
        ensures
            r@ == if self.index {
                "index"@
            } else {
                "noindex"@
            },
    {
        if self.index {
            "index"
        } else {
            "noindex"
        }
    }

    /// The link-following directive.
    pub fn follow_str(self) -> (r: &'static str)
        ensures
            r@ == if self.follow {
                "follow"@
            } else {
                "nofollow"@
            },
    {
        if self.follow {
            "follow"
        } else {
            "nofollow"
        }
    }

    /// The archival directives, absent when archiving is allowed.
    pub fn archive_strs(self) -> (r: Option<[&'static str; 2]>)
        ensures
            self.archive ==> r is None,
            !self.archive ==> (r matches Some(a) && a[0]@ == "noarchive"@ && a[1]@
                == "nocache"@),
    {
        if self.archive {
            None
        } else {
            Some(["noarchive", "nocache"])
        }
    }

    /// The snippet directive, absent when snippets are allowed.
    pub fn snippet_str(self) -> (r: Option<&'static str>)
        ensures
            self.snippet ==> r is None,
            !self.snippet ==> (r matches Some(s) && s@ == "nosnippet"@),
    {
        if self.snippet {
            None
        } else {
            Some("nosnippet")
        }
    }

    /// The image indexing directive, absent when image indexing is allowed.
    pub fn image_index_str(self) -> (r: Option<&'static str>)
        ensures
            self.image_index ==> r is None,
            !self.image_index ==> (r matches Some(s) && s@ == "noimageindex"@),
    {
        if self.image_index {
            None
        } else {
            Some("noimageindex")
        }
    }

    /// Appends the comma-separated robots meta list to `buf`, exactly as
    /// `meta_list_spec` describes.
    pub fn write_meta_list_to(self, buf: &mut String)
        ensures
            final(buf)@ == old(buf)@ + meta_list_spec(self),
    {
        proof {
            reveal_strlit(",");
            reveal_strlit(",noarchive,nocache");
            reveal_strlit("noarchive");
            reveal_strlit("nocache");
            reveal_strlit(",nosnippet");
            reveal_strlit("nosnippet");
            reveal_strlit(",noimageindex");
            reveal_strlit("noimageindex");
        }
        buf.append(self.index_str());
        buf.append(",");
        buf.append(self.follow_str());
        if let Some(pair) = self.archive_strs() {
            buf.append(",");
            buf.append(pair[0]);
            buf.append(",");
            buf.append(pair[1]);
        }
        if let Some(s) = self.snippet_str() {
            buf.append(",");
            buf.append(s);
        }
        if let Some(s) = self.image_index_str() {
            buf.append(",");
            buf.append(s);
        }
        proof {
            assert(buf@ =~= old(buf)@ + meta_list_spec(self));
        }
    }

    /// The comma-separated robots meta list of this hint set.
    pub fn meta_list(self) -> (r: String)
        ensures
            r@ == meta_list_spec(self),
    {
        let mut r = String::new();
        self.write_meta_list_to(&mut r);
        proof {
            assert(r@ =~= meta_list_spec(self));
        }
        r
    }
}

/// An HTML page under assembly: status, title, head and body fragments,
/// and the crawler hints its robots meta tag will carry.
#[derive(Clone, Debug)]
pub struct HtmlResponse {
    pub status: u16,
    pub title: String,
    pub head: Option<String>,
    pub body: Option<String>,
    pub crawler_hints: CrawlerHints,
}

impl HtmlResponse {
    /// A fresh response: status 200, an untitled page, no fragments, and
    /// restrictive crawler hints.
    pub fn new() -> (r: Self)
        ensures
            r.status == 200,
            r.title@ == "untitled"@,
            r.head is None,
            r.body is None,
            r.crawler_hints == (CrawlerHints {
                index: false,
                follow: false,
                archive: false,
                snippet: false,
                image_index: false,
            }),
    {
        Self {
            status: 200,
            title: String::from_str("untitled"),
            head: None,
            body: None,
            crawler_hints: CrawlerHints::restrictive(),
        }
    }

    /// This response with the status replaced.
    pub fn with_status(self, status: u16) -> (r: Self)
        ensures
            r == (HtmlResponse { status, ..self }),
    {
        Self { status, ..self }
    }

    /// This response with the title replaced.
    pub fn with_title(self, title: String) -> (r: Self)
        ensures
            r == (HtmlResponse { title, ..self }),
    {
        Self { title, ..self }
    }

    /// This response with the title replaced by a borrowed literal.
    pub fn with_title_static(self, title: &'static str) -> (r: Self)
        ensures
            r.title@ == title@,
            r.status == self.status,
            r.head == self.head,
            r.body == self.body,
            r.crawler_hints == self.crawler_hints,
    {
        self.with_title(String::from_str(title))
    }

    /// This response with the title replaced by an owned string.
    pub fn with_title_owned(self, title: String) -> (r: Self)
        ensures
            r == (HtmlResponse { title, ..self }),
    {
        self.with_title(title)
    }

    /// This response with the head fragment replaced.
    pub fn with_head(self, head: String) -> (r: Self)
        ensures
            r == (HtmlResponse { head: Some(head), ..self }),
    {
        Self { head: Some(head), ..self }
    }

    /// This response with the body fragment replaced.
    pub fn with_body(self, body: String) -> (r: Self)
        ensures
            r == (HtmlResponse { body: Some(body), ..self }),
    {
        Self { body: Some(body), ..self }
    }

    /// This response with the crawler hints replaced.
    pub fn with_crawler_hints(self, crawler_hints: CrawlerHints) -> (r: Self)
        ensures
            r == (HtmlResponse { crawler_hints, ..self }),
    {
        Self { crawler_hints, ..self }
    }

    /// This response with restrictive crawler hints.
    pub fn with_crawler_restrictive(self) -> (r: Self)
        ensures
            r.crawler_hints == (CrawlerHints {
                index: false,
                follow: false,
                archive: false,
                snippet: false,
                image_index: false,
            }),
            r.status == self.status,
            r.title == self.title,
            r.head == self.head,
            r.body == self.body,
    {
        self.with_crawler_hints(CrawlerHints::restrictive())
    }

    /// This response with permissive crawler hints.
    pub fn with_crawler_permissive(self) -> (r: Self)
        ensures
            r.crawler_hints == (CrawlerHints {
                index: true,
                follow: true,
                archive: true,
                snippet: true,
                image_index: true,
            }),
            r.status == self.status,
            r.title == self.title,
            r.head == self.head,
            r.body == self.body,
    {
        self.with_crawler_hints(CrawlerHints::permissive())
    }
}

impl Default for HtmlResponse {
    /// The default response is a fresh one.
    fn default() -> (r: Self)
        ensures
            r.status == 200,
            r.title@ == "untitled"@,
            r.head is None,
            r.body is None,
            r.crawler_hints == (CrawlerHints {
                index: false,
                follow: false,
                archive: false,
                snippet: false,
                image_index: false,
            }),
    {
        Self::new()
    }
}

} // verus!
