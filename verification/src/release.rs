//! Release manifests: the typed record of a published release, selection of
//! the platform-appropriate asset, and the names derived from a release.

use vstd::prelude::*;
use crate::text::{chars_of, eq_chars, has_sub, str_eq, string_of_chars};
use vstd::string::StringExecFns;

verus! {

broadcast use vstd::string::group_string_axioms;

/// One downloadable file attached to a release.
#[derive(Debug, Clone)]
pub struct ReleaseAsset {
    /// The file name the release publishes the asset under.
    pub name: String,
    /// Where the asset can be downloaded from.
    pub download_url: String,
}

/// A release manifest: a version tag and the assets published with it.
#[derive(Debug, Clone)]
pub struct Release {
    /// The tag naming the release's version.
    pub tag_name: String,
    /// The downloadable assets, in the order the manifest lists them.
    pub assets: Vec<ReleaseAsset>,
}

/// The mathematical content of a [`ReleaseAsset`].
pub struct AssetView {
    pub name: Seq<char>,
    pub download_url: Seq<char>,
}

/// The mathematical content of a [`Release`].
pub struct ReleaseView {
    pub tag_name: Seq<char>,
    pub assets: Seq<AssetView>,
}

impl View for ReleaseAsset {
    type V = AssetView;

    open spec fn view(&self) -> AssetView {
        AssetView { name: self.name@, download_url: self.download_url@ }
    }
}

impl View for Release {
    type V = ReleaseView;

    open spec fn view(&self) -> ReleaseView {
        ReleaseView { tag_name: self.tag_name@, assets: self.assets@.map_values(|a: ReleaseAsset| a@) }
    }
}

/// Parses the members of one asset object, past its opening brace. The
/// `name` and `url` accumulators hold the required fields seen so far; a
/// duplicate of either is an error, as is a missing one at the closing brace.
pub open spec fn parse_asset_fields(
    s: Seq<char>,
    i: int,
    first: bool,
    name: Option<Seq<char>>,
    url: Option<Seq<char>>,
) -> Option<(AssetView, int)>
    decreases s.len() - i,
{
    if !(0 <= i <= s.len()) {
        None
    } else {
        let j = crate::json::skip_ws(s, i);
        if !(i <= j < s.len()) {
            None
        } else if first && s[j] == '}' {
            None
        } else {
            match crate::json::parse_string(s, j) {
                Some((k, jk)) => if !(j < jk <= s.len()) {
                    None
                } else {
                    let jc = crate::json::skip_ws(s, jk);
                    if !(jk <= jc < s.len()) {
                        None
                    } else if s[jc] == ':' {
                        let jv = crate::json::skip_ws(s, jc + 1);
                        if !(jc + 1 <= jv < s.len()) {
                            None
                        } else {
                            let step: Option<(Option<Seq<char>>, Option<Seq<char>>, int)> = if k
                                == "name"@ {
                                if name is Some {
                                    None
                                } else {
                                    match crate::json::parse_string(s, jv) {
                                        Some((v, je)) => Some((Some(v), url, je)),
                                        None => None,
                                    }
                                }
                            } else if k == "browser_download_url"@ {
                                if url is Some {
                                    None
                                } else {
                                    match crate::json::parse_string(s, jv) {
                                        Some((v, je)) => Some((name, Some(v), je)),
                                        None => None,
                                    }
                                }
                            } else {
                                match crate::json::skip_value(s, jv) {
                                    Some(je) => Some((name, url, je)),
                                    None => None,
                                }
                            };
                            match step {
                                Some((name2, url2, je)) => if !(jv < je <= s.len()) {
                                    None
                                } else {
                                    let js = crate::json::skip_ws(s, je);
                                    if !(je <= js < s.len()) {
                                        None
                                    } else if s[js] == ',' {
                                        parse_asset_fields(s, js + 1, false, name2, url2)
                                    } else if s[js] == '}' {
                                        match (name2, url2) {
                                            (Some(n), Some(u)) => Some(
                                                (AssetView { name: n, download_url: u }, js + 1),
                                            ),
                                            _ => None,
                                        }
                                    } else {
                                        None
                                    }
                                },
                                None => None,
                            }
                        }
                    } else {
                        None
                    }
                },
                None => None,
            }
        }
    }
}

/// Parses one asset object starting at its opening brace.
pub open spec fn parse_asset_obj(s: Seq<char>, i: int) -> Option<(AssetView, int)> {
    if 0 <= i < s.len() && s[i] == '{' {
        parse_asset_fields(s, i + 1, true, None, None)
    } else {
        None
    }
}

/// Parses the elements of the asset array, past its opening bracket.
pub open spec fn parse_asset_elems(s: Seq<char>, i: int, first: bool) -> Option<
    (Seq<AssetView>, int),
>
    decreases s.len() - i,
{
    if !(0 <= i <= s.len()) {
        None
    } else {
        let j = crate::json::skip_ws(s, i);
        if !(i <= j < s.len()) {
            None
        } else if first && s[j] == ']' {
            Some((Seq::empty(), j + 1))
        } else {
            match parse_asset_obj(s, j) {
                Some((a, je)) => if !(j < je <= s.len()) {
                    None
                } else {
                    let js = crate::json::skip_ws(s, je);
                    if !(je <= js < s.len()) {
                        None
                    } else if s[js] == ',' {
                        match parse_asset_elems(s, js + 1, false) {
                            Some((rest, end)) => Some((seq![a] + rest, end)),
                            None => None,
                        }
                    } else if s[js] == ']' {
                        Some((seq![a], js + 1))
                    } else {
                        None
                    }
                },
                None => None,
            }
        }
    }
}

/// Parses the asset array starting at its opening bracket.
pub open spec fn parse_assets_arr(s: Seq<char>, i: int) -> Option<(Seq<AssetView>, int)> {
    if 0 <= i < s.len() && s[i] == '[' {
        parse_asset_elems(s, i + 1, true)
    } else {
        None
    }
}

/// Parses the members of the manifest object, past its opening brace. The
/// accumulators hold the required `tag_name` and `assets` fields seen so far.
pub open spec fn parse_release_fields(
    s: Seq<char>,
    i: int,
    first: bool,
    tag: Option<Seq<char>>,
    assets: Option<Seq<AssetView>>,
) -> Option<(ReleaseView, int)>
    decreases s.len() - i,
{
    if !(0 <= i <= s.len()) {
        None
    } else {
        let j = crate::json::skip_ws(s, i);
        if !(i <= j < s.len()) {
            None
        } else if first && s[j] == '}' {
            None
        } else {
            match crate::json::parse_string(s, j) {
                Some((k, jk)) => if !(j < jk <= s.len()) {
                    None
                } else {
                    let jc = crate::json::skip_ws(s, jk);
                    if !(jk <= jc < s.len()) {
                        None
                    } else if s[jc] == ':' {
                        let jv = crate::json::skip_ws(s, jc + 1);
                        if !(jc + 1 <= jv < s.len()) {
                            None
                        } else {
                            let step: Option<
                                (Option<Seq<char>>, Option<Seq<AssetView>>, int),
                            > = if k == "tag_name"@ {
                                if tag is Some {
                                    None
                                } else {
                                    match crate::json::parse_string(s, jv) {
                                        Some((v, je)) => Some((Some(v), assets, je)),
                                        None => None,
                                    }
                                }
                            } else if k == "assets"@ {
                                if assets is Some {
                                    None
                                } else {
                                    match parse_assets_arr(s, jv) {
                                        Some((v, je)) => Some((tag, Some(v), je)),
                                        None => None,
                                    }
                                }
                            } else {
                                match crate::json::skip_value(s, jv) {
                                    Some(je) => Some((tag, assets, je)),
                                    None => None,
                                }
                            };
                            match step {
                                Some((tag2, assets2, je)) => if !(jv < je <= s.len()) {
                                    None
                                } else {
                                    let js = crate::json::skip_ws(s, je);
                                    if !(je <= js < s.len()) {
                                        None
                                    } else if s[js] == ',' {
                                        parse_release_fields(s, js + 1, false, tag2, assets2)
                                    } else if s[js] == '}' {
                                        match (tag2, assets2) {
                                            (Some(t), Some(a)) => Some(
                                                (ReleaseView { tag_name: t, assets: a }, js + 1),
                                            ),
                                            _ => None,
                                        }
                                    } else {
                                        None
                                    }
                                },
                                None => None,
                            }
                        }
                    } else {
                        None
                    }
                },
                None => None,
            }
        }
    }
}

/// Parses the manifest object starting at its opening brace.
pub open spec fn parse_release_obj(s: Seq<char>, i: int) -> Option<(ReleaseView, int)> {
    if 0 <= i < s.len() && s[i] == '{' {
        parse_release_fields(s, i + 1, true, None, None)
    } else {
        None
    }
}

/// What a whole manifest document denotes: the manifest object, possibly
/// surrounded by whitespace, spanning the entire input.
pub open spec fn spec_parse_release(s: Seq<char>) -> Option<ReleaseView> {
    match parse_release_obj(s, crate::json::skip_ws(s, 0)) {
        Some((r, j)) => if crate::json::skip_ws(s, j) == s.len() {
            Some(r)
        } else {
            None
        },
        None => None,
    }
}

/// The content of an optional character vector, as an optional sequence.
pub open spec fn oview_chars(o: Option<Vec<char>>) -> Option<Seq<char>> {
    match o {
        Some(v) => Some(v@),
        None => None,
    }
}

/// The content of an optional asset vector, as an optional sequence of views.
pub open spec fn oview_assets(o: Option<Vec<ReleaseAsset>>) -> Option<Seq<AssetView>> {
    match o {
        Some(v) => Some(v@.map_values(|a: ReleaseAsset| a@)),
        None => None,
    }
}

fn e_parse_asset_fields(
    s: &Vec<char>,
    i: usize,
    first: bool,
    name: Option<Vec<char>>,
    url: Option<Vec<char>>,
) -> (r: Option<(ReleaseAsset, usize)>)
    requires
        i <= s@.len(),
    ensures
        match r {
            Some((a, j)) => parse_asset_fields(s@, i as int, first, oview_chars(name), oview_chars(url))
                == Some((a@, j as int)) && i < j <= s@.len(),
            None => parse_asset_fields(s@, i as int, first, oview_chars(name), oview_chars(url))
                is None,
        },
    decreases s@.len() - i,
{
    let j = crate::json::e_skip_ws(s, i);
    if j >= s.len() {
        return None;
    }
    if first && s[j] == '}' {
        return None;
    }
    let parsed_key = crate::json::e_parse_string(s, j);
    match parsed_key {
        Some((k, jk)) => {
            let jc = crate::json::e_skip_ws(s, jk);
            if jc >= s.len() {
                return None;
            }
            if s[jc] != ':' {
                return None;
            }
            let jv = crate::json::e_skip_ws(s, jc + 1);
            if jv >= s.len() {
                return None;
            }
            let name_key = chars_of("name");
            let url_key = chars_of("browser_download_url");
            let step: Option<(Option<Vec<char>>, Option<Vec<char>>, usize)> = if eq_chars(
                &k,
                &name_key,
            ) {
                if name.is_some() {
                    None
                } else {
                    match crate::json::e_parse_string(s, jv) {
                        Some((v, je)) => Some((Some(v), url, je)),
                        None => None,
                    }
                }
            } else if eq_chars(&k, &url_key) {
                if url.is_some() {
                    None
                } else {
                    match crate::json::e_parse_string(s, jv) {
                        Some((v, je)) => Some((name, Some(v), je)),
                        None => None,
                    }
                }
            } else {
                match crate::json::e_skip_value(s, jv) {
                    Some(je) => Some((name, url, je)),
                    None => None,
                }
            };
            match step {
                Some((name2, url2, je)) => {
                    let js = crate::json::e_skip_ws(s, je);
                    if js >= s.len() {
                        return None;
                    }
                    if s[js] == ',' {
                        e_parse_asset_fields(s, js + 1, false, name2, url2)
                    } else if s[js] == '}' {
                        match (name2, url2) {
                            (Some(n), Some(u)) => Some(
                                (
                                    ReleaseAsset {
                                        name: string_of_chars(&n),
                                        download_url: string_of_chars(&u),
                                    },
                                    js + 1,
                                ),
                            ),
                            _ => None,
                        }
                    } else {
                        None
                    }
                },
                None => None,
            }
        },
        None => None,
    }
}

fn e_parse_asset_obj(s: &Vec<char>, i: usize) -> (r: Option<(ReleaseAsset, usize)>)
    requires
        i <= s@.len(),
    ensures
        match r {
            Some((a, j)) => parse_asset_obj(s@, i as int) == Some((a@, j as int)) && i < j
                <= s@.len(),
            None => parse_asset_obj(s@, i as int) is None,
        },
{
    if i < s.len() && s[i] == '{' {
        e_parse_asset_fields(s, i + 1, true, None, None)
    } else {
        None
    }
}

fn e_parse_asset_elems(s: &Vec<char>, i: usize, first: bool) -> (r: Option<
    (Vec<ReleaseAsset>, usize),
>)
    requires
        i <= s@.len(),
    ensures
        match r {
            Some((v, j)) => parse_asset_elems(s@, i as int, first) == Some(
                (v@.map_values(|a: ReleaseAsset| a@), j as int),
            ) && i < j <= s@.len(),
            None => parse_asset_elems(s@, i as int, first) is None,
        },
    decreases s@.len() - i,
{
    let j = crate::json::e_skip_ws(s, i);
    if j >= s.len() {
        return None;
    }
    if first && s[j] == ']' {
        let out: Vec<ReleaseAsset> = Vec::new();
        proof {
            assert(out@.map_values(|a: ReleaseAsset| a@) =~= Seq::<AssetView>::empty());
        }
        return Some((out, j + 1));
    }
    match e_parse_asset_obj(s, j) {
        Some((a, je)) => {
            let js = crate::json::e_skip_ws(s, je);
            if js >= s.len() {
                return None;
            }
            if s[js] == ',' {
                match e_parse_asset_elems(s, js + 1, false) {
                    Some((mut rest, end)) => {
                        let ghost rest0 = rest@;
                        let ghost av = a@;
                        rest.insert(0, a);
                        proof {
                            assert(rest@.map_values(|x: ReleaseAsset| x@) =~= seq![av]
                                + rest0.map_values(|x: ReleaseAsset| x@));
                        }
                        Some((rest, end))
                    },
                    None => None,
                }
            } else if s[js] == ']' {
                let ghost av = a@;
                let mut out: Vec<ReleaseAsset> = Vec::new();
                out.push(a);
                proof {
                    assert(out@.map_values(|x: ReleaseAsset| x@) =~= seq![av]);
                }
                Some((out, js + 1))
            } else {
                None
            }
        },
        None => None,
    }
}

fn e_parse_assets_arr(s: &Vec<char>, i: usize) -> (r: Option<(Vec<ReleaseAsset>, usize)>)
    requires
        i <= s@.len(),
    ensures
        match r {
            Some((v, j)) => parse_assets_arr(s@, i as int) == Some(
                (v@.map_values(|a: ReleaseAsset| a@), j as int),
            ) && i < j <= s@.len(),
            None => parse_assets_arr(s@, i as int) is None,
        },
{
    if i < s.len() && s[i] == '[' {
        e_parse_asset_elems(s, i + 1, true)
    } else {
        None
    }
}

fn e_parse_release_fields(
    s: &Vec<char>,
    i: usize,
    first: bool,
    tag: Option<Vec<char>>,
    assets: Option<Vec<ReleaseAsset>>,
) -> (r: Option<(Release, usize)>)
    requires
        i <= s@.len(),
    ensures
        match r {
            Some((rel, j)) => parse_release_fields(
                s@,
                i as int,
                first,
                oview_chars(tag),
                oview_assets(assets),
            ) == Some((rel@, j as int)) && i < j <= s@.len(),
            None => parse_release_fields(
                s@,
                i as int,
                first,
                oview_chars(tag),
                oview_assets(assets),
            ) is None,
        },
    decreases s@.len() - i,
{
    let j = crate::json::e_skip_ws(s, i);
    if j >= s.len() {
        return None;
    }
    if first && s[j] == '}' {
        return None;
    }
    let parsed_key = crate::json::e_parse_string(s, j);
    match parsed_key {
        Some((k, jk)) => {
            let jc = crate::json::e_skip_ws(s, jk);
            if jc >= s.len() {
                return None;
            }
            if s[jc] != ':' {
                return None;
            }
            let jv = crate::json::e_skip_ws(s, jc + 1);
            if jv >= s.len() {
                return None;
            }
            let tag_key = chars_of("tag_name");
            let assets_key = chars_of("assets");
            let step: Option<(Option<Vec<char>>, Option<Vec<ReleaseAsset>>, usize)> = if eq_chars(
                &k,
                &tag_key,
            ) {
                if tag.is_some() {
                    None
                } else {
                    match crate::json::e_parse_string(s, jv) {
                        Some((v, je)) => Some((Some(v), assets, je)),
                        None => None,
                    }
                }
            } else if eq_chars(&k, &assets_key) {
                if assets.is_some() {
                    None
                } else {
                    match e_parse_assets_arr(s, jv) {
                        Some((v, je)) => Some((tag, Some(v), je)),
                        None => None,
                    }
                }
            } else {
                match crate::json::e_skip_value(s, jv) {
                    Some(je) => Some((tag, assets, je)),
                    None => None,
                }
            };
            match step {
                Some((tag2, assets2, je)) => {
                    let js = crate::json::e_skip_ws(s, je);
                    if js >= s.len() {
                        return None;
                    }
                    if s[js] == ',' {
                        e_parse_release_fields(s, js + 1, false, tag2, assets2)
                    } else if s[js] == '}' {
                        match (tag2, assets2) {
                            (Some(t), Some(a)) => Some(
                                (Release { tag_name: string_of_chars(&t), assets: a }, js + 1),
                            ),
                            _ => None,
                        }
                    } else {
                        None
                    }
                },
                None => None,
            }
        },
        None => None,
    }
}

fn e_parse_release_obj(s: &Vec<char>, i: usize) -> (r: Option<(Release, usize)>)
    requires
        i <= s@.len(),
    ensures
        match r {
            Some((rel, j)) => parse_release_obj(s@, i as int) == Some((rel@, j as int)) && i < j
                <= s@.len(),
            None => parse_release_obj(s@, i as int) is None,
        },
{
    if i < s.len() && s[i] == '{' {
        e_parse_release_fields(s, i + 1, true, None, None)
    } else {
        None
    }
}

/// Parses a whole manifest document. Succeeds exactly on the documents the
/// grammar of [`spec_parse_release`] accepts, and returns exactly the
/// manifest the document denotes.
pub fn parse_release(body: &str) -> (r: Result<Release, String>)
    ensures
        r matches Ok(rel) ==> spec_parse_release(body@) == Some(rel@),
        r is Err ==> spec_parse_release(body@) is None,
        r matches Err(e) ==> e@ == "failed to parse release manifest json"@,
{
    let s = chars_of(body);
    let i = crate::json::e_skip_ws(&s, 0);
    match e_parse_release_obj(&s, i) {
        Some((rel, j)) => {
            let j2 = crate::json::e_skip_ws(&s, j);
            if j2 == s.len() {
                Ok(rel)
            } else {
                Err("failed to parse release manifest json".to_owned())
            }
        },
        None => Err("failed to parse release manifest json".to_owned()),
    }
}

/// A string value that can stand literally inside a rendered string: no
/// quote, no backslash, no control character, so no escape sequence is
/// needed.
pub open spec fn escape_free(v: Seq<char>) -> bool {
    forall|i: int| 0 <= i < v.len() ==> v[i] != '"' && v[i] != '\\' && (v[i] as int) >= 0x20
}

/// The canonical rendering of a string value: the content between quotes.
pub open spec fn render_string(v: Seq<char>) -> Seq<char> {
    seq!['"'] + v + seq!['"']
}

/// The canonical rendering of one asset object.
pub open spec fn render_asset(a: AssetView) -> Seq<char> {
    "{\"name\":"@ + render_string(a.name) + ",\"browser_download_url\":"@ + render_string(
        a.download_url,
    ) + "}"@
}

/// The canonical rendering of the asset list, comma-separated.
pub open spec fn render_assets(l: Seq<AssetView>) -> Seq<char>
    decreases l.len(),
{
    if l.len() == 0 {
        Seq::empty()
    } else if l.len() == 1 {
        render_asset(l[0])
    } else {
        render_asset(l[0]) + ","@ + render_assets(l.drop_first())
    }
}

/// The canonical rendering of a whole manifest document.
pub open spec fn render_release(r: ReleaseView) -> Seq<char> {
    "{\"tag_name\":"@ + render_string(r.tag_name) + ",\"assets\":["@ + render_assets(r.assets)
        + "]}"@
}

/// An asset list all of whose strings can be rendered literally.
pub open spec fn wf_assets(l: Seq<AssetView>) -> bool {
    forall|k: int|
        0 <= k < l.len() ==> escape_free(#[trigger] l[k].name) && escape_free(
            l[k].download_url,
        )
}

/// A manifest all of whose strings can be rendered literally, so that the
/// canonical rendering needs no escape sequences.
pub open spec fn wf_release(r: ReleaseView) -> bool {
    &&& escape_free(r.tag_name)
    &&& wf_assets(r.assets)
}

proof fn lemma_char_at(s: Seq<char>, i: int, r: Seq<char>, k: int)
    requires
        0 <= i,
        i + r.len() <= s.len(),
        s.subrange(i, i + r.len()) == r,
        0 <= k < r.len(),
    ensures
        s[i + k] == r[k],
{
    assert(s.subrange(i, i + r.len())[k] == s[i + k]);
}

proof fn lemma_sub_at(s: Seq<char>, i: int, r: Seq<char>, p: int, q: int)
    requires
        0 <= i,
        i + r.len() <= s.len(),
        s.subrange(i, i + r.len()) == r,
        0 <= p <= q <= r.len(),
    ensures
        s.subrange(i + p, i + q) =~= r.subrange(p, q),
{
    assert forall|t: int| 0 <= t < q - p implies s.subrange(i + p, i + q)[t] == r.subrange(p, q)[t] by {
        assert(s.subrange(i, i + r.len())[p + t] == s[i + p + t]);
    }
}

proof fn lemma_parse_string_body_at(s: Seq<char>, i: int, v: Seq<char>)
    requires
        escape_free(v),
        0 <= i,
        i + v.len() + 1 <= s.len(),
        s.subrange(i, i + v.len()) == v,
        s[i + v.len()] == '"',
    ensures
        crate::json::parse_string_body(s, i) == Some((v, i + v.len() + 1)),
    decreases v.len(),
{
    if v.len() == 0 {
        assert(s[i] == '"');
        assert(crate::json::parse_string_body(s, i) == Some((Seq::<char>::empty(), i + 1)));
        assert(Seq::<char>::empty() =~= v);
    } else {
        lemma_char_at(s, i, v, 0);
        assert(s[i] == v[0]);
        assert(v[0] != '"' && v[0] != '\\');
        let rest = v.drop_first();
        assert(s.subrange(i + 1, i + 1 + rest.len()) =~= rest) by {
            assert forall|t: int| 0 <= t < rest.len() implies s.subrange(
                i + 1,
                i + 1 + rest.len(),
            )[t] == rest[t] by {
                assert(s.subrange(i, i + v.len())[t + 1] == s[i + 1 + t]);
            }
        }
        assert(escape_free(rest));
        lemma_parse_string_body_at(s, i + 1, rest);
        assert(crate::json::parse_string_body(s, i) == Some(
            (seq![v[0]] + rest, i + v.len() + 1),
        ));
        assert(seq![v[0]] + rest =~= v);
    }
}

proof fn lemma_parse_string_at(s: Seq<char>, i: int, v: Seq<char>)
    requires
        escape_free(v),
        0 <= i,
        i + v.len() + 2 <= s.len(),
        s.subrange(i, i + v.len() + 2) == render_string(v),
    ensures
        crate::json::parse_string(s, i) == Some((v, i + v.len() + 2)),
{
    let r = render_string(v);
    lemma_char_at(s, i, r, 0);
    assert(r[0] == '"');
    assert(s.subrange(i + 1, i + 1 + v.len()) =~= v) by {
        assert forall|t: int| 0 <= t < v.len() implies s.subrange(i + 1, i + 1 + v.len())[t]
            == v[t] by {
            assert(s.subrange(i, i + r.len())[t + 1] == s[i + 1 + t]);
            assert(r[t + 1] == v[t]);
        }
    }
    lemma_char_at(s, i, r, v.len() as int + 1);
    assert(r[v.len() as int + 1] == '"');
    lemma_parse_string_body_at(s, i + 1, v);
}

proof fn lemma_parse_asset_at(s: Seq<char>, i: int, a: AssetView)
    requires
        escape_free(a.name),
        escape_free(a.download_url),
        0 <= i,
        i + render_asset(a).len() <= s.len(),
        s.subrange(i, i + render_asset(a).len()) == render_asset(a),
    ensures
        parse_asset_obj(s, i) == Some((a, i + render_asset(a).len())),
{
    reveal_strlit("{\"name\":");
    reveal_strlit(",\"browser_download_url\":");
    reveal_strlit("}");
    reveal_strlit("name");
    reveal_strlit("browser_download_url");
    let ra = render_asset(a);
    let n1 = a.name.len() as int;
    let n2 = a.download_url.len() as int;
    assert(ra.len() == n1 + n2 + 37);

    // the opening brace and the first key
    lemma_char_at(s, i, ra, 0);
    assert(s[i] == '{');
    lemma_sub_at(s, i, ra, 1, 7);
    assert(ra.subrange(1, 7) =~= render_string("name"@));
    assert(escape_free("name"@));
    lemma_parse_string_at(s, i + 1, "name"@);
    lemma_char_at(s, i, ra, 7);
    assert(s[i + 7] == ':');

    // the first value
    lemma_sub_at(s, i, ra, 8, 10 + n1);
    assert(ra.subrange(8, 10 + n1) =~= render_string(a.name));
    lemma_parse_string_at(s, i + 8, a.name);
    lemma_char_at(s, i, ra, 10 + n1);
    assert(s[i + 10 + n1] == ',');

    // the second key
    lemma_sub_at(s, i, ra, 11 + n1, 33 + n1);
    assert(ra.subrange(11 + n1, 33 + n1) =~= render_string("browser_download_url"@));
    assert(escape_free("browser_download_url"@));
    lemma_parse_string_at(s, i + 11 + n1, "browser_download_url"@);
    lemma_char_at(s, i, ra, 33 + n1);
    assert(s[i + 33 + n1] == ':');

    // the second value and the closing brace
    lemma_sub_at(s, i, ra, 34 + n1, 36 + n1 + n2);
    assert(ra.subrange(34 + n1, 36 + n1 + n2) =~= render_string(a.download_url));
    lemma_parse_string_at(s, i + 34 + n1, a.download_url);
    lemma_char_at(s, i, ra, 36 + n1 + n2);
    assert(s[i + 36 + n1 + n2] == '}');

    // the keys differ, so each lands in its own field
    assert("name"@ != "browser_download_url"@);
    assert("name"@ != "tag_name"@ || true);

    // walk the member list: the second member first
    assert(parse_asset_fields(s, i + 11 + n1, false, Some(a.name), None) == Some(
        (AssetView { name: a.name, download_url: a.download_url }, i + 37 + n1 + n2),
    ));
    assert(AssetView { name: a.name, download_url: a.download_url } == a);
    // then the first member, whose tail is the call above
    assert(parse_asset_fields(s, i + 1, true, None, None) == Some((a, i + 37 + n1 + n2)));
}

#[verifier::rlimit(100)]
proof fn lemma_parse_asset_elems_at(s: Seq<char>, i: int, l: Seq<AssetView>, first: bool)
    requires
        wf_assets(l),
        0 <= i,
        i + render_assets(l).len() + 1 <= s.len(),
        s.subrange(i, i + render_assets(l).len()) == render_assets(l),
        s[i + render_assets(l).len()] == ']',
        l.len() == 0 ==> first,
    ensures
        parse_asset_elems(s, i, first) == Some((l, i + render_assets(l).len() + 1)),
    decreases l.len(),
{
    reveal_strlit(",");
    reveal_strlit("{\"name\":");
    reveal_strlit(",\"browser_download_url\":");
    reveal_strlit("}");
    let rl = render_assets(l);
    if l.len() == 0 {
        assert(rl.len() == 0);
        assert(s[i] == ']');
        assert(Seq::<AssetView>::empty() =~= l);
    } else {
        let a = l[0];
        assert(escape_free(a.name) && escape_free(a.download_url));
        let ra = render_asset(a);
        let ral = ra.len() as int;
        let rll = rl.len() as int;
        assert(ral == a.name.len() + a.download_url.len() + 37);
        assert(s.subrange(i, i + ral) =~= ra) by {
            if l.len() == 1 {
                assert(rl == ra);
            } else {
                lemma_sub_at(s, i, rl, 0, ral);
                assert(rl.subrange(0, ral) =~= ra);
            }
        }
        lemma_parse_asset_at(s, i, a);
        lemma_char_at(s, i, ra, 0);
        assert(s[i] == '{');
        let je = i + ral;
        if l.len() == 1 {
            assert(s[je] == ']');
            assert(parse_asset_elems(s, i, first) == Some((seq![a], je + 1)));
            assert(seq![a] =~= l);
        } else {
            let tail = l.drop_first();
            let rt = render_assets(tail);
            let rtl = rt.len() as int;
            assert(rl == ra + ","@ + rt);
            lemma_char_at(s, i, rl, ral);
            assert(rl[ral] == ',');
            assert(s[je] == ',');
            assert(s.subrange(je + 1, je + 1 + rtl) =~= rt) by {
                lemma_sub_at(s, i, rl, ral + 1, rll);
                assert(rl.subrange(ral + 1, rll) =~= rt);
            }
            assert(s[je + 1 + rtl] == ']') by {
                assert(je + 1 + rtl == i + rll);
            }
            assert(wf_assets(tail)) by {
                assert forall|k: int|
                    0 <= k < tail.len() implies escape_free(#[trigger] tail[k].name)
                    && escape_free(tail[k].download_url) by {
                    assert(tail[k] == l[k + 1]);
                    assert(escape_free(l[k + 1].name) && escape_free(l[k + 1].download_url));
                }
            }
            lemma_parse_asset_elems_at(s, je + 1, tail, false);
            assert(parse_asset_elems(s, i, first) == Some(
                (seq![a] + tail, i + rl.len() + 1),
            ));
            assert(seq![a] + tail =~= l);
        }
    }
}

proof fn lemma_release_walk(s: Seq<char>, nt: int, la: int, r: ReleaseView)
    requires
        nt == r.tag_name.len(),
        la == render_assets(r.assets).len(),
        s.len() == nt + la + 27,
        s[0] == '{',
        crate::json::parse_string(s, 1) == Some(("tag_name"@, 11int)),
        s[11] == ':',
        crate::json::parse_string(s, 12) == Some((r.tag_name, 14 + nt)),
        s[14 + nt] == ',',
        crate::json::parse_string(s, 15 + nt) == Some(("assets"@, 23 + nt)),
        s[23 + nt] == ':',
        parse_assets_arr(s, 24 + nt) == Some((r.assets, 26 + nt + la)),
        s[26 + nt + la] == '}',
        "tag_name"@ != "assets"@,
    ensures
        parse_release_obj(s, 0) == Some((r, s.len() as int)),
{
    assert(s[1] == '"' && s[12] == '"' && s[15 + nt] == '"');
    assert(s[24 + nt] == '[');
    assert(crate::json::skip_ws(s, 1) == 1);
    assert(crate::json::skip_ws(s, 11) == 11);
    assert(crate::json::skip_ws(s, 12) == 12);
    assert(crate::json::skip_ws(s, 14 + nt) == 14 + nt);
    assert(crate::json::skip_ws(s, 15 + nt) == 15 + nt);
    assert(crate::json::skip_ws(s, 23 + nt) == 23 + nt);
    assert(crate::json::skip_ws(s, 24 + nt) == 24 + nt);
    assert(crate::json::skip_ws(s, 26 + nt + la) == 26 + nt + la);
    assert(parse_release_fields(s, 15 + nt, false, Some(r.tag_name), None) == Some(
        (ReleaseView { tag_name: r.tag_name, assets: r.assets }, 27 + nt + la),
    ));
    assert(ReleaseView { tag_name: r.tag_name, assets: r.assets } == r);
    assert(parse_release_fields(s, 1, true, None, None) == Some((r, 27 + nt + la)));
}

#[verifier::rlimit(100)]
proof fn lemma_release_pieces_head(r: ReleaseView)
    ensures
        render_release(r).len() == r.tag_name.len() + render_assets(r.assets).len() + 27,
        render_release(r)[0] == '{',
        render_release(r).subrange(1, 11) == render_string("tag_name"@),
        render_release(r)[11] == ':',
        render_release(r).subrange(12, 14 + r.tag_name.len() as int) == render_string(r.tag_name),
        render_release(r)[14 + r.tag_name.len() as int] == ',',
{
    reveal_strlit("{\"tag_name\":");
    reveal_strlit(",\"assets\":[");
    reveal_strlit("]}");
    reveal_strlit("tag_name");
    let s = render_release(r);
    let nt = r.tag_name.len() as int;
    assert(s.subrange(1, 11) =~= render_string("tag_name"@));
    assert(s.subrange(12, 14 + nt) =~= render_string(r.tag_name));
}

#[verifier::rlimit(100)]
proof fn lemma_release_pieces_tail(r: ReleaseView)
    ensures
        ({
            let s = render_release(r);
            let nt = r.tag_name.len() as int;
            let la = render_assets(r.assets).len() as int;
            &&& s.subrange(15 + nt, 23 + nt) == render_string("assets"@)
            &&& s[23 + nt] == ':'
            &&& s[24 + nt] == '['
            &&& s.subrange(25 + nt, 25 + nt + la) == render_assets(r.assets)
            &&& s[25 + nt + la] == ']'
            &&& s[26 + nt + la] == '}'
        }),
{
    reveal_strlit("{\"tag_name\":");
    reveal_strlit(",\"assets\":[");
    reveal_strlit("]}");
    reveal_strlit("assets");
    let s = render_release(r);
    let nt = r.tag_name.len() as int;
    let la = render_assets(r.assets).len() as int;
    assert(s.subrange(15 + nt, 23 + nt) =~= render_string("assets"@));
    assert(s.subrange(25 + nt, 25 + nt + la) =~= render_assets(r.assets));
}

proof fn lemma_release_top(s: Seq<char>, r: ReleaseView)
    requires
        s.len() >= 1,
        crate::json::skip_ws(s, 0) == 0,
        crate::json::skip_ws(s, s.len() as int) == s.len() as int,
        parse_release_obj(s, 0) == Some((r, s.len() as int)),
    ensures
        spec_parse_release(s) == Some(r),
{
}

#[verifier::rlimit(100)]
proof fn lemma_release_members_head(r: ReleaseView)
    requires
        wf_release(r),
    ensures
        ({
            let s = render_release(r);
            let nt = r.tag_name.len() as int;
            let la = render_assets(r.assets).len() as int;
            &&& s.len() == nt + la + 27
            &&& s[0] == '{'
            &&& crate::json::parse_string(s, 1) == Some(("tag_name"@, 11int))
            &&& s[11] == ':'
            &&& crate::json::parse_string(s, 12) == Some((r.tag_name, 14 + nt))
            &&& s[14 + nt] == ','
        }),
{
    reveal_strlit("tag_name");
    let s = render_release(r);
    let nt = r.tag_name.len() as int;
    lemma_release_pieces_head(r);
    assert(escape_free("tag_name"@));
    lemma_parse_string_at(s, 1, "tag_name"@);
    lemma_parse_string_at(s, 12, r.tag_name);
}

#[verifier::rlimit(100)]
proof fn lemma_release_members_tail(r: ReleaseView)
    requires
        wf_release(r),
    ensures
        ({
            let s = render_release(r);
            let nt = r.tag_name.len() as int;
            let la = render_assets(r.assets).len() as int;
            &&& crate::json::parse_string(s, 15 + nt) == Some(("assets"@, 23 + nt))
            &&& s[23 + nt] == ':'
            &&& parse_assets_arr(s, 24 + nt) == Some((r.assets, 26 + nt + la))
            &&& s[26 + nt + la] == '}'
        }),
{
    reveal_strlit("assets");
    let s = render_release(r);
    let nt = r.tag_name.len() as int;
    let la = render_assets(r.assets).len() as int;
    lemma_release_pieces_head(r);
    lemma_release_pieces_tail(r);
    assert(escape_free("assets"@));
    lemma_parse_string_at(s, 15 + nt, "assets"@);
    lemma_parse_asset_elems_at(s, 25 + nt, r.assets, true);
    assert(parse_assets_arr(s, 24 + nt) == Some((r.assets, 26 + nt + la)));
}

/// Parsing the canonical rendering of a well-formed manifest returns exactly
/// that manifest: the tag and the asset list round-trip unchanged.
#[verifier::rlimit(100)]
pub proof fn lemma_release_round_trip(r: ReleaseView)
    requires
        wf_release(r),
    ensures
        spec_parse_release(render_release(r)) == Some(r),
{
    reveal_strlit("tag_name");
    reveal_strlit("assets");
    let s = render_release(r);
    let nt = r.tag_name.len() as int;
    let la = render_assets(r.assets).len() as int;
    lemma_release_members_head(r);
    lemma_release_members_tail(r);
    assert("tag_name"@.len() == 8);
    assert("assets"@.len() == 6);
    assert("tag_name"@ != "assets"@);
    lemma_release_walk(s, nt, la, r);
    assert(crate::json::skip_ws(s, 0) == 0);
    assert(crate::json::skip_ws(s, s.len() as int) == s.len());
    lemma_release_top(s, r);
}

/// The lowercase form of a string, as `str::to_lowercase` computes it.
/// It depends on the characters alone.
pub uninterp spec fn lower_of(s: Seq<char>) -> Seq<char>;

/// Relies on `str::to_lowercase`: the result is a function of the input's
/// characters, named here by [`lower_of`].
#[verifier::external_body]
fn lowercase(s: &str) -> (r: String)
    ensures
        r@ == lower_of(s@),
{
    s.to_lowercase()
}

/// An asset fits a platform when its name, lowercased, contains the
/// platform token as a substring.
pub open spec fn asset_matches(a: AssetView, platform: Seq<char>) -> bool {
    has_sub(lower_of(a.name), platform)
}

/// `i` is the index of the first asset fitting the platform.
pub open spec fn is_first_match(assets: Seq<AssetView>, platform: Seq<char>, i: int) -> bool {
    &&& 0 <= i < assets.len()
    &&& asset_matches(assets[i], platform)
    &&& forall|j: int| 0 <= j < i ==> !asset_matches(assets[j], platform)
}

/// Selects the index of the first asset whose name, case-insensitively,
/// contains the platform token; fails exactly when no asset's name does.
pub fn select_asset(assets: &Vec<ReleaseAsset>, platform: &str) -> (r: Result<usize, String>)
    ensures
        r matches Ok(i) ==> i < assets@.len() && asset_matches(assets@[i as int]@, platform@)
            && forall|j: int| 0 <= j < i ==> !asset_matches(assets@[j]@, platform@),
        r is Err ==> forall|j: int|
            0 <= j < assets@.len() ==> !asset_matches(assets@[j]@, platform@),
        r matches Err(e) ==> e@ == "failed to find correct pkg for native os"@,
{
    let needle = chars_of(platform);
    let mut i: usize = 0;
    while i < assets.len()
        invariant
            needle@ == platform@,
            i <= assets@.len(),
            forall|j: int| 0 <= j < i ==> !asset_matches(assets@[j]@, platform@),
        decreases assets@.len() - i,
    {
        let lowered = lowercase(assets[i].name.as_str());
        let hay = chars_of(lowered.as_str());
        if crate::text::contains_chars(&hay, &needle) {
            return Ok(i);
        }
        i = i + 1;
    }
    Err("failed to find correct pkg for native os".to_owned())
}

/// The name of the tool's executable on the given platform, or nothing on a
/// platform the tool is not published for.
pub fn ventoy_bin_name(os: &str) -> (r: Option<&'static str>)
    ensures
        os@ == "windows"@ ==> (r matches Some(n) && n@ == "Ventoy2Disk.exe"@),
        os@ == "linux"@ ==> (r matches Some(n) && n@ == "VentoyGUI.x86_64"@),
        r is None <==> os@ != "windows"@ && os@ != "linux"@,
{
    proof {
        reveal_strlit("windows");
        reveal_strlit("linux");
        assert("windows"@.len() == 7);
        assert("linux"@.len() == 5);
        assert("windows"@ != "linux"@);
    }
    if str_eq(os, "windows") {
        Some("Ventoy2Disk.exe")
    } else if str_eq(os, "linux") {
        Some("VentoyGUI.x86_64")
    } else {
        None
    }
}

/// The conventional name of the directory a release's package is extracted
/// into: the tool's name, the version tag and the platform.
pub fn pkg_dir_name(tag: &str, os: &str) -> (r: String)
    ensures
        r@ == "ventoy-"@ + tag@ + "-"@ + os@,
{
    let mut s = String::new();
    s.append("ventoy-");
    s.append(tag);
    s.append("-");
    s.append(os);
    s
}

} // verus!
