//! The search collaborator's data handling: building the query URL,
//! locating the embedded JSON payload in the response page, and extracting
//! search results from its tree.

use vstd::prelude::*;

use crate::ansi::{str_chars, str_eq, string_from_chars};
use crate::tui::SearchResult;

verus! {

/// A JSON value over plain components. Numeric values are never read by
/// the extraction, so they carry no payload.
pub enum Json {
    Null,
    Bool(bool),
    Num,
    Str(String),
    Arr(Vec<Json>),
    Obj(Vec<(String, Json)>),
}

/// The value under `key` among `fields`, searched front to back.
pub open spec fn spec_get(fields: Seq<(String, Json)>, key: Seq<char>) -> Option<Json>
    decreases fields.len(),
{
    if fields.len() == 0 {
        Option::None
    } else if fields[0].0@ == key {
        Option::Some(fields[0].1)
    } else {
        spec_get(fields.drop_first(), key)
    }
}

/// The value under `key` when `v` is an object holding it.
pub open spec fn spec_obj_get(v: Json, key: Seq<char>) -> Option<Json> {
    match v {
        Json::Obj(fields) => spec_get(fields@, key),
        _ => Option::None,
    }
}

impl Json {
    /// Looks up `key` in an object; anything else has no members.
    pub fn get(&self, key: &str) -> (r: Option<&Json>)
        ensures
            r matches Some(v) ==> spec_obj_get(*self, key@) == Option::Some(*v),
            r is None <==> spec_obj_get(*self, key@) is None,
    {
        match self {
            Json::Obj(fields) => {
                let ghost fs = fields@;
                let mut i: usize = 0;
                proof {
                    assert(fs.skip(0) =~= fs);
                }
                while i < fields.len()
                    invariant
                        i <= fs.len(),
                        fields@ == fs,
                        *self matches Json::Obj(f) && f@ == fs,
                        spec_get(fs, key@) == spec_get(fs.skip(i as int), key@),
                    decreases fs.len() - i,
                {
                    proof {
                        assert(fs.skip(i as int)[0] == fs[i as int]);
                        assert(fs.skip(i as int).drop_first() =~= fs.skip(i + 1));
                    }
                    if str_eq(fields[i].0.as_str(), key) {
                        return Some(&fields[i].1);
                    }
                    i = i + 1;
                }
                proof {
                    assert(fs.skip(fs.len() as int) =~= Seq::<(String, Json)>::empty());
                }
                None
            },
            _ => None,
        }
    }

    /// The elements when `v` is an array.
    pub fn as_array(&self) -> (r: Option<&Vec<Json>>)
        ensures
            r matches Some(a) ==> *self == Json::Arr(*a),
            r is None <==> !(*self is Arr),
    {
        match self {
            Json::Arr(elems) => Some(elems),
            _ => None,
        }
    }

    /// The text when `v` is a string.
    pub fn as_str(&self) -> (r: Option<&String>)
        ensures
            r matches Some(s) ==> *self == Json::Str(*s),
            r is None <==> !(*self is Str),
    {
        match self {
            Json::Str(s) => Some(s),
            _ => None,
        }
    }
}

/// The text of the first run under `key`, as the search page stores
/// titles: `key.runs[0].text`.
pub open spec fn spec_runs_text(v: Json, key: Seq<char>) -> Option<Seq<char>> {
    match spec_obj_get(v, key) {
        Option::None => Option::None,
        Option::Some(t) => match spec_obj_get(t, "runs"@) {
            Option::None => Option::None,
            Option::Some(runs) => match runs {
                Json::Arr(elems) => if elems@.len() > 0 {
                    match spec_obj_get(elems@[0], "text"@) {
                        Option::Some(Json::Str(s)) => Option::Some(s@),
                        _ => Option::None,
                    }
                } else {
                    Option::None
                },
                _ => Option::None,
            },
        },
    }
}

fn runs_text(v: &Json, key: &str) -> (r: Option<String>)
    ensures
        r matches Some(s) ==> spec_runs_text(*v, key@) == Option::Some(s@),
        r is None <==> spec_runs_text(*v, key@) is None,
{
    let t = match v.get(key) {
        Some(t) => t,
        None => {
            return None;
        },
    };
    let runs = match t.get("runs") {
        Some(r) => r,
        None => {
            return None;
        },
    };
    let elems = match runs.as_array() {
        Some(a) => a,
        None => {
            return None;
        },
    };
    if elems.len() == 0 {
        return None;
    }
    let text = match elems[0].get("text") {
        Some(t) => t,
        None => {
            return None;
        },
    };
    match text.as_str() {
        Some(s) => Some(s.clone()),
        None => None,
    }
}

/// The watch locator of a result: the video id under
/// `navigationEndpoint.watchEndpoint.videoId`, behind the fixed watch URL.
pub open spec fn spec_video_path(v: Json) -> Option<Seq<char>> {
    match spec_obj_get(v, "navigationEndpoint"@) {
        Option::None => Option::None,
        Option::Some(nav) => match spec_obj_get(nav, "watchEndpoint"@) {
            Option::None => Option::None,
            Option::Some(we) => match spec_obj_get(we, "videoId"@) {
                Option::Some(Json::Str(id)) => Option::Some(
                    "https://www.youtube.com/watch?v="@ + id@,
                ),
                _ => Option::None,
            },
        },
    }
}

/// One parsed video entry: its title text, uploader text, and watch
/// locator, present only when all three parse.
pub open spec fn spec_parse_video(v: Json) -> Option<(Seq<char>, Seq<char>, Seq<char>)> {
    match spec_runs_text(v, "title"@) {
        Option::None => Option::None,
        Option::Some(title) => match spec_runs_text(v, "ownerText"@) {
            Option::None => Option::None,
            Option::Some(uploader) => match spec_video_path(v) {
                Option::None => Option::None,
                Option::Some(path) => Option::Some((title, uploader, path)),
            },
        },
    }
}

/// Parses one `videoRenderer` object into a search result.
pub fn parse_video(v: &Json) -> (r: Option<SearchResult>)
    ensures
        r matches Some(sr) ==> spec_parse_video(*v) == Option::Some(
            (sr.title@, sr.uploader@, sr.path@),
        ),
        r is None <==> spec_parse_video(*v) is None,
{
    let title = match runs_text(v, "title") {
        Some(t) => t,
        None => {
            return None;
        },
    };
    let uploader = match runs_text(v, "ownerText") {
        Some(u) => u,
        None => {
            return None;
        },
    };
    let nav = match v.get("navigationEndpoint") {
        Some(n) => n,
        None => {
            return None;
        },
    };
    let we = match nav.get("watchEndpoint") {
        Some(w) => w,
        None => {
            return None;
        },
    };
    let idv = match we.get("videoId") {
        Some(i) => i,
        None => {
            return None;
        },
    };
    let id = match idv.as_str() {
        Some(s) => s,
        None => {
            return None;
        },
    };
    let mut path: Vec<char> = Vec::new();
    crate::ansi::push_str_chars(&mut path, "https://www.youtube.com/watch?v=");
    crate::ansi::push_str_chars(&mut path, id.as_str());
    Some(SearchResult { title, uploader, path: string_from_chars(&path) })
}

/// The parsed entries of the item list: each item's `videoRenderer`, when
/// it has one and it parses.
pub open spec fn spec_collect_videos(items: Seq<Json>) -> Seq<(Seq<char>, Seq<char>, Seq<char>)>
    decreases items.len(),
{
    if items.len() == 0 {
        Seq::empty()
    } else {
        let rest = spec_collect_videos(items.drop_first());
        match spec_obj_get(items[0], "videoRenderer"@) {
            Option::Some(v) => match spec_parse_video(v) {
                Option::Some(t) => seq![t] + rest,
                Option::None => rest,
            },
            Option::None => rest,
        }
    }
}

/// Where the search page keeps its result items, and the message for each
/// step that can be missing.
pub open spec fn spec_extract_results(root: Json) -> Result<
    Seq<(Seq<char>, Seq<char>, Seq<char>)>,
    Seq<char>,
> {
    match spec_obj_get(root, "contents"@) {
        Option::None => Result::Err("contents (0) not found"@),
        Option::Some(a) => match spec_obj_get(a, "twoColumnSearchResultsRenderer"@) {
            Option::None => Result::Err("twoColumnSearchResultsRenderer not found"@),
            Option::Some(b) => match spec_obj_get(b, "primaryContents"@) {
                Option::None => Result::Err("primaryContents not found"@),
                Option::Some(c) => match spec_obj_get(c, "sectionListRenderer"@) {
                    Option::None => Result::Err("sectionListRenderer not found"@),
                    Option::Some(d) => match spec_obj_get(d, "contents"@) {
                        Option::None => Result::Err("contents (1) not found"@),
                        Option::Some(e) => match e {
                            Json::Arr(sections) => if sections@.len() == 0 {
                                Result::Err("no elements in array"@)
                            } else {
                                match spec_obj_get(sections@[0], "itemSectionRenderer"@) {
                                    Option::None => Result::Err("itemSectionRenderer not found"@),
                                    Option::Some(g) => match spec_obj_get(g, "contents"@) {
                                        Option::None => Result::Err("contents (2) not found"@),
                                        Option::Some(h) => match h {
                                            Json::Arr(items) => Result::Ok(
                                                spec_collect_videos(items@),
                                            ),
                                            _ => Result::Err("not an array (1)"@),
                                        },
                                    },
                                }
                            },
                            _ => Result::Err("not an array (0)"@),
                        },
                    },
                },
            },
        },
    }
}

/// Extracts the search results from the page's parsed data tree, or the
/// message naming the first part of the expected shape that is missing.
pub fn extract_search_results(root: &Json) -> (r: Result<Vec<SearchResult>, String>)
    ensures
        r matches Ok(v) ==> (spec_extract_results(*root) matches Ok(items) && v@.map_values(
            |sr: SearchResult| (sr.title@, sr.uploader@, sr.path@),
        ) == items),
        r matches Err(e) ==> (spec_extract_results(*root) matches Err(m) && e@ == m),
{
    let a = match root.get("contents") {
        Some(x) => x,
        None => {
            return Err(String::from_str("contents (0) not found"));
        },
    };
    let b = match a.get("twoColumnSearchResultsRenderer") {
        Some(x) => x,
        None => {
            return Err(String::from_str("twoColumnSearchResultsRenderer not found"));
        },
    };
    let c = match b.get("primaryContents") {
        Some(x) => x,
        None => {
            return Err(String::from_str("primaryContents not found"));
        },
    };
    let d = match c.get("sectionListRenderer") {
        Some(x) => x,
        None => {
            return Err(String::from_str("sectionListRenderer not found"));
        },
    };
    let e = match d.get("contents") {
        Some(x) => x,
        None => {
            return Err(String::from_str("contents (1) not found"));
        },
    };
    let sections = match e.as_array() {
        Some(x) => x,
        None => {
            return Err(String::from_str("not an array (0)"));
        },
    };
    if sections.len() == 0 {
        return Err(String::from_str("no elements in array"));
    }
    let g = match sections[0].get("itemSectionRenderer") {
        Some(x) => x,
        None => {
            return Err(String::from_str("itemSectionRenderer not found"));
        },
    };
    let h = match g.get("contents") {
        Some(x) => x,
        None => {
            return Err(String::from_str("contents (2) not found"));
        },
    };
    let items = match h.as_array() {
        Some(x) => x,
        None => {
            return Err(String::from_str("not an array (1)"));
        },
    };
    let ghost itemsv = items@;
    let mut out: Vec<SearchResult> = Vec::new();
    let mut i: usize = 0;
    proof {
        assert(itemsv.skip(0) =~= itemsv);
    }
    while i < items.len()
        invariant
            i <= itemsv.len(),
            items@ == itemsv,
            spec_collect_videos(itemsv) =~= out@.map_values(
                |sr: SearchResult| (sr.title@, sr.uploader@, sr.path@),
            ) + spec_collect_videos(itemsv.skip(i as int)),
        decreases itemsv.len() - i,
    {
        proof {
            assert(itemsv.skip(i as int)[0] == itemsv[i as int]);
            assert(itemsv.skip(i as int).drop_first() =~= itemsv.skip(i + 1));
        }
        let ghost out0 = out@;
        let mut picked: Option<SearchResult> = None;
        match items[i].get("videoRenderer") {
            Some(v) => {
                match parse_video(v) {
                    Some(sr) => {
                        picked = Some(sr);
                    },
                    None => {},
                }
            },
            None => {},
        }
        match picked {
            Some(sr) => {
                out.push(sr);
            },
            None => {},
        }
        i = i + 1;
        proof {
            let f = |sr: SearchResult| (sr.title@, sr.uploader@, sr.path@);
            assert(forall|j: int| 0 <= j < out@.len() ==> out@.map_values(f)[j] == f(
                #[trigger] out@[j],
            ));
            assert(forall|j: int| 0 <= j < out0.len() ==> out0.map_values(f)[j] == f(
                #[trigger] out0[j],
            ));
            assert(spec_collect_videos(itemsv) =~= out@.map_values(f) + spec_collect_videos(
                itemsv.skip(i as int),
            ));
        }
    }
    proof {
        assert(itemsv.skip(itemsv.len() as int) =~= Seq::<Json>::empty());
        assert(out@.map_values(|sr: SearchResult| (sr.title@, sr.uploader@, sr.path@))
            =~= spec_collect_videos(itemsv));
    }
    Ok(out)
}


/// The name of what urlencoding's `encode` returns: percent-encoding is a
/// pure function of the input characters.
pub uninterp spec fn url_encoded(s: Seq<char>) -> Seq<char>;

/// Relies on `urlencoding::encode`: the result depends on the characters
/// alone, and an empty input stays empty.
#[verifier::external_body]
fn url_encode(s: &str) -> (r: String)
    ensures
        r@ == url_encoded(s@),
        s@.len() == 0 ==> r@.len() == 0,
{
    urlencoding::encode(s).into_owned()
}

/// The query with every space replaced by a plus sign.
pub open spec fn spec_plus_joined(q: Seq<char>) -> Seq<char> {
    q.map_values(|c: char| if c == ' ' { '+' } else { c })
}

/// The results-page URL for a query: the plus-joined query,
/// percent-encoded, between the fixed prefix and the filter suffix.
pub open spec fn spec_search_url(q: Seq<char>) -> Seq<char> {
    "https://www.youtube.com/results?search_query="@ + url_encoded(spec_plus_joined(q))
        + "&sp=EgIQAQ%253D%253D"@
}

/// Builds the results-page URL for a free-text query.
pub fn search_url(query: &str) -> (r: String)
    ensures
        r@ == spec_search_url(query@),
{
    let cs = str_chars(query);
    let mut joined: Vec<char> = Vec::new();
    let mut i: usize = 0;
    while i < cs.len()
        invariant
            i <= cs@.len(),
            cs@ == query@,
            joined@ == spec_plus_joined(query@).take(i as int),
        decreases cs@.len() - i,
    {
        if cs[i] == ' ' {
            joined.push('+');
        } else {
            joined.push(cs[i]);
        }
        i = i + 1;
        assert(joined@ =~= spec_plus_joined(query@).take(i as int));
    }
    proof {
        assert(spec_plus_joined(query@).take(cs@.len() as int) =~= spec_plus_joined(query@));
    }
    let encoded = url_encode(string_from_chars(&joined).as_str());
    let mut url: Vec<char> = Vec::new();
    crate::ansi::push_str_chars(&mut url, "https://www.youtube.com/results?search_query=");
    crate::ansi::push_str_chars(&mut url, encoded.as_str());
    crate::ansi::push_str_chars(&mut url, "&sp=EgIQAQ%253D%253D");
    let r = string_from_chars(&url);
    proof {
        assert(r@ =~= spec_search_url(query@));
    }
    r
}

/// The name of what scraper's parsing of the page returns for the fixed
/// "script" selector: the inner text of each script element, in document
/// order, a pure function of the document text.
pub uninterp spec fn script_texts_of(html: Seq<char>) -> Seq<Seq<char>>;

/// Relies on scraper's `Html::parse_document` and `select` with the fixed
/// selector "script", and `ElementRef::inner_html`: the script texts
/// depend on the document text alone.
#[verifier::external_body]
fn script_texts(html: &str) -> (r: Vec<String>)
    ensures
        r@.map_values(|t: String| t@) == script_texts_of(html@),
{
    let doc = scraper::Html::parse_document(html);
    let selector = scraper::Selector::parse("script").unwrap();
    doc.select(&selector).map(|e| e.inner_html()).collect()
}

/// Whether a script text is the one carrying the embedded data tree.
pub open spec fn spec_is_initial_data(s: Seq<char>) -> bool {
    s.len() >= 17 && s.take(17) == "var ytInitialData"@
}

/// The embedded JSON payload among the scripts: the first script starting
/// with the marker, stripped of the assignment prefix and the trailing
/// semicolon, when it is long enough to hold them.
pub open spec fn spec_initial_payload(scripts: Seq<Seq<char>>) -> Option<Seq<char>>
    decreases scripts.len(),
{
    if scripts.len() == 0 {
        Option::None
    } else if spec_is_initial_data(scripts[0]) {
        if scripts[0].len() >= 21 {
            Option::Some(scripts[0].subrange(20, scripts[0].len() - 1))
        } else {
            Option::None
        }
    } else {
        spec_initial_payload(scripts.drop_first())
    }
}

/// Tests whether a script text starts with the embedded-data marker.
fn is_initial_data(cs: &Vec<char>) -> (r: bool)
    ensures
        r == spec_is_initial_data(cs@),
{
    proof {
        reveal_strlit("var ytInitialData");
    }
    let marker = str_chars("var ytInitialData");
    if cs.len() < 17 {
        return false;
    }
    let mut k: usize = 0;
    while k < 17
        invariant
            k <= 17,
            marker@ == "var ytInitialData"@,
            marker@.len() == 17,
            cs@.len() >= 17,
            forall|j: int| 0 <= j < k ==> cs@[j] == marker@[j],
        decreases 17 - k,
    {
        if cs[k] != marker[k] {
            proof {
                assert(cs@.take(17)[k as int] != "var ytInitialData"@[k as int]);
            }
            return false;
        }
        k = k + 1;
    }
    proof {
        assert(cs@.take(17) =~= "var ytInitialData"@);
    }
    true
}

/// Finds the embedded JSON payload in the search results page.
pub fn initial_data_from_html(html: &str) -> (r: Option<String>)
    ensures
        r matches Some(p) ==> spec_initial_payload(script_texts_of(html@)) == Option::Some(p@),
        r is None <==> spec_initial_payload(script_texts_of(html@)) is None,
{
    let scripts = script_texts(html);
    let ghost sv = scripts@.map_values(|t: String| t@);
    proof {
        assert(sv.skip(0) =~= sv);
    }
    let mut i: usize = 0;
    while i < scripts.len()
        invariant
            i <= sv.len(),
            sv == scripts@.map_values(|t: String| t@),
            sv == script_texts_of(html@),
            sv.len() == scripts@.len(),
            spec_initial_payload(sv) == spec_initial_payload(sv.skip(i as int)),
        decreases sv.len() - i,
    {
        proof {
            assert(sv.skip(i as int)[0] == sv[i as int]);
            assert(sv.skip(i as int).drop_first() =~= sv.skip(i + 1));
            assert(sv[i as int] == scripts@[i as int]@);
        }
        let cs = str_chars(scripts[i].as_str());
        proof {
            assert(cs@ == sv[i as int]);
        }
        if is_initial_data(&cs) {
            if cs.len() >= 21 {
                let mut payload: Vec<char> = Vec::new();
                let mut m: usize = 20;
                proof {
                    assert(cs@.subrange(20, 20) =~= Seq::<char>::empty());
                }
                while m < cs.len() - 1
                    invariant
                        20 <= m <= cs@.len() - 1,
                        cs@.len() >= 21,
                        payload@ == cs@.subrange(20, m as int),
                    decreases cs@.len() - m,
                {
                    payload.push(cs[m]);
                    m = m + 1;
                    assert(payload@ =~= cs@.subrange(20, m as int));
                }
                return Some(string_from_chars(&payload));
            } else {
                return None;
            }
        }
        i = i + 1;
    }
    proof {
        assert(sv.skip(sv.len() as int) =~= Seq::<Seq<char>>::empty());
    }
    None
}

} // verus!
