//! The release-feed catalog: parsing the feed document, computing the
//! deduplicated group list that drives the filter selector, and filtering
//! entries for display.

use vstd::prelude::*;
use crate::text::{chars_of, eq_chars, has_sub, str_eq, string_of_chars};

verus! {

broadcast use vstd::string::group_string_axioms;

/// One catalog entry of the release feed.
#[derive(Debug, Clone)]
pub struct FeedsItem {
    /// The category label the entry is grouped under.
    pub group: String,
    /// The entry's display name.
    pub name: String,
    /// A link to the entry's torrent file.
    pub torrent_url: String,
    /// The entry's magnet link.
    pub magnet: String,
    /// The entry's publication date.
    pub date: String,
}

/// The mathematical content of a [`FeedsItem`].
pub struct FeedView {
    pub group: Seq<char>,
    pub name: Seq<char>,
    pub torrent_url: Seq<char>,
    pub magnet: Seq<char>,
    pub date: Seq<char>,
}

impl View for FeedsItem {
    type V = FeedView;

    open spec fn view(&self) -> FeedView {
        FeedView {
            group: self.group@,
            name: self.name@,
            torrent_url: self.torrent_url@,
            magnet: self.magnet@,
            date: self.date@,
        }
    }
}

/// The required fields of a feed entry collected so far while its object is
/// being parsed.
pub struct FeedAcc {
    pub group: Option<Vec<char>>,
    pub name: Option<Vec<char>>,
    pub torrent_url: Option<Vec<char>>,
    pub magnet: Option<Vec<char>>,
    pub date: Option<Vec<char>>,
}

/// The mathematical content of a [`FeedAcc`].
pub struct FeedAccView {
    pub group: Option<Seq<char>>,
    pub name: Option<Seq<char>>,
    pub torrent_url: Option<Seq<char>>,
    pub magnet: Option<Seq<char>>,
    pub date: Option<Seq<char>>,
}

impl View for FeedAcc {
    type V = FeedAccView;

    open spec fn view(&self) -> FeedAccView {
        FeedAccView {
            group: crate::release::oview_chars(self.group),
            name: crate::release::oview_chars(self.name),
            torrent_url: crate::release::oview_chars(self.torrent_url),
            magnet: crate::release::oview_chars(self.magnet),
            date: crate::release::oview_chars(self.date),
        }
    }
}

/// No field has been seen yet.
pub open spec fn feed_acc_empty() -> FeedAccView {
    FeedAccView { group: None, name: None, torrent_url: None, magnet: None, date: None }
}

/// Parses the members of one feed-entry object, past its opening brace. All
/// five fields are required; a duplicate of any is an error, unknown members
/// are skipped.
pub open spec fn parse_feed_fields(s: Seq<char>, i: int, first: bool, acc: FeedAccView) -> Option<
    (FeedView, int),
>
    decreases s.len() - i,
{
    if !(0 <= i <= s.len()) {
        None
    } else {
        let j = crate::json::skip_ws(s, i);
        if !(i <= j < s.len()) {
            None
        } else if first && s[j] == '}' {
            None
        } else {
            match crate::json::parse_string(s, j) {
                Some((k, jk)) => if !(j < jk <= s.len()) {
                    None
                } else {
                    let jc = crate::json::skip_ws(s, jk);
                    if !(jk <= jc < s.len()) {
                        None
                    } else if s[jc] == ':' {
                        let jv = crate::json::skip_ws(s, jc + 1);
                        if !(jc + 1 <= jv < s.len()) {
                            None
                        } else {
                            let step: Option<(FeedAccView, int)> = if k == "group"@ {
                                if acc.group is Some {
                                    None
                                } else {
                                    match crate::json::parse_string(s, jv) {
                                        Some((v, je)) => Some(
                                            (FeedAccView { group: Some(v), ..acc }, je),
                                        ),
                                        None => None,
                                    }
                                }
                            } else if k == "name"@ {
                                if acc.name is Some {
                                    None
                                } else {
                                    match crate::json::parse_string(s, jv) {
                                        Some((v, je)) => Some(
                                            (FeedAccView { name: Some(v), ..acc }, je),
                                        ),
                                        None => None,
                                    }
                                }
                            } else if k == "torrent_url"@ {
                                if acc.torrent_url is Some {
                                    None
                                } else {
                                    match crate::json::parse_string(s, jv) {
                                        Some((v, je)) => Some(
                                            (FeedAccView { torrent_url: Some(v), ..acc }, je),
                                        ),
                                        None => None,
                                    }
                                }
                            } else if k == "magnet"@ {
                                if acc.magnet is Some {
                                    None
                                } else {
                                    match crate::json::parse_string(s, jv) {
                                        Some((v, je)) => Some(
                                            (FeedAccView { magnet: Some(v), ..acc }, je),
                                        ),
                                        None => None,
                                    }
                                }
                            } else if k == "date"@ {
                                if acc.date is Some {
                                    None
                                } else {
                                    match crate::json::parse_string(s, jv) {
                                        Some((v, je)) => Some(
                                            (FeedAccView { date: Some(v), ..acc }, je),
                                        ),
                                        None => None,
                                    }
                                }
                            } else {
                                match crate::json::skip_value(s, jv) {
                                    Some(je) => Some((acc, je)),
                                    None => None,
                                }
                            };
                            match step {
                                Some((acc2, je)) => if !(jv < je <= s.len()) {
                                    None
                                } else {
                                    let js = crate::json::skip_ws(s, je);
                                    if !(je <= js < s.len()) {
                                        None
                                    } else if s[js] == ',' {
                                        parse_feed_fields(s, js + 1, false, acc2)
                                    } else if s[js] == '}' {
                                        match (acc2.group, acc2.name, acc2.torrent_url, acc2.magnet, acc2.date) {
                                            (Some(g), Some(n), Some(t), Some(m), Some(d)) => Some(
                                                (
                                                    FeedView {
                                                        group: g,
                                                        name: n,
                                                        torrent_url: t,
                                                        magnet: m,
                                                        date: d,
                                                    },
                                                    js + 1,
                                                ),
                                            ),
                                            _ => None,
                                        }
                                    } else {
                                        None
                                    }
                                },
                                None => None,
                            }
                        }
                    } else {
                        None
                    }
                },
                None => None,
            }
        }
    }
}

/// Parses one feed-entry object starting at its opening brace.
pub open spec fn parse_feed_obj(s: Seq<char>, i: int) -> Option<(FeedView, int)> {
    if 0 <= i < s.len() && s[i] == '{' {
        parse_feed_fields(s, i + 1, true, feed_acc_empty())
    } else {
        None
    }
}

/// Parses the elements of the feed array, past its opening bracket.
pub open spec fn parse_feed_elems(s: Seq<char>, i: int, first: bool) -> Option<
    (Seq<FeedView>, int),
>
    decreases s.len() - i,
{
    if !(0 <= i <= s.len()) {
        None
    } else {
        let j = crate::json::skip_ws(s, i);
        if !(i <= j < s.len()) {
            None
        } else if first && s[j] == ']' {
            Some((Seq::empty(), j + 1))
        } else {
            match parse_feed_obj(s, j) {
                Some((f, je)) => if !(j < je <= s.len()) {
                    None
                } else {
                    let js = crate::json::skip_ws(s, je);
                    if !(je <= js < s.len()) {
                        None
                    } else if s[js] == ',' {
                        match parse_feed_elems(s, js + 1, false) {
                            Some((rest, end)) => Some((seq![f] + rest, end)),
                            None => None,
                        }
                    } else if s[js] == ']' {
                        Some((seq![f], js + 1))
                    } else {
                        None
                    }
                },
                None => None,
            }
        }
    }
}

/// What a whole feed document denotes: one array of feed-entry objects,
/// possibly surrounded by whitespace, spanning the entire input.
pub open spec fn spec_parse_feeds(s: Seq<char>) -> Option<Seq<FeedView>> {
    let i = crate::json::skip_ws(s, 0);
    if 0 <= i < s.len() && s[i] == '[' {
        match parse_feed_elems(s, i + 1, true) {
            Some((fs, j)) => if crate::json::skip_ws(s, j) == s.len() {
                Some(fs)
            } else {
                None
            },
            None => None,
        }
    } else {
        None
    }
}

fn e_parse_feed_fields(s: &Vec<char>, i: usize, first: bool, acc: FeedAcc) -> (r: Option<
    (FeedsItem, usize),
>)
    requires
        i <= s@.len(),
    ensures
        match r {
            Some((f, j)) => parse_feed_fields(s@, i as int, first, acc@) == Some((f@, j as int))
                && i < j <= s@.len(),
            None => parse_feed_fields(s@, i as int, first, acc@) is None,
        },
    decreases s@.len() - i,
{
    let j = crate::json::e_skip_ws(s, i);
    if j >= s.len() {
        return None;
    }
    if first && s[j] == '}' {
        return None;
    }
    let parsed_key = crate::json::e_parse_string(s, j);
    match parsed_key {
        Some((k, jk)) => {
            let jc = crate::json::e_skip_ws(s, jk);
            if jc >= s.len() {
                return None;
            }
            if s[jc] != ':' {
                return None;
            }
            let jv = crate::json::e_skip_ws(s, jc + 1);
            if jv >= s.len() {
                return None;
            }
            let step: Option<(FeedAcc, usize)> = if eq_chars(&k, &chars_of("group")) {
                if acc.group.is_some() {
                    None
                } else {
                    match crate::json::e_parse_string(s, jv) {
                        Some((v, je)) => Some((FeedAcc { group: Some(v), ..acc }, je)),
                        None => None,
                    }
                }
            } else if eq_chars(&k, &chars_of("name")) {
                if acc.name.is_some() {
                    None
                } else {
                    match crate::json::e_parse_string(s, jv) {
                        Some((v, je)) => Some((FeedAcc { name: Some(v), ..acc }, je)),
                        None => None,
                    }
                }
            } else if eq_chars(&k, &chars_of("torrent_url")) {
                if acc.torrent_url.is_some() {
                    None
                } else {
                    match crate::json::e_parse_string(s, jv) {
                        Some((v, je)) => Some((FeedAcc { torrent_url: Some(v), ..acc }, je)),
                        None => None,
                    }
                }
            } else if eq_chars(&k, &chars_of("magnet")) {
                if acc.magnet.is_some() {
                    None
                } else {
                    match crate::json::e_parse_string(s, jv) {
                        Some((v, je)) => Some((FeedAcc { magnet: Some(v), ..acc }, je)),
                        None => None,
                    }
                }
            } else if eq_chars(&k, &chars_of("date")) {
                if acc.date.is_some() {
                    None
                } else {
                    match crate::json::e_parse_string(s, jv) {
                        Some((v, je)) => Some((FeedAcc { date: Some(v), ..acc }, je)),
                        None => None,
                    }
                }
            } else {
                match crate::json::e_skip_value(s, jv) {
                    Some(je) => Some((acc, je)),
                    None => None,
                }
            };
            match step {
                Some((acc2, je)) => {
                    let js = crate::json::e_skip_ws(s, je);
                    if js >= s.len() {
                        return None;
                    }
                    if s[js] == ',' {
                        e_parse_feed_fields(s, js + 1, false, acc2)
                    } else if s[js] == '}' {
                        match (acc2.group, acc2.name, acc2.torrent_url, acc2.magnet, acc2.date) {
                            (Some(g), Some(n), Some(t), Some(m), Some(d)) => Some(
                                (
                                    FeedsItem {
                                        group: string_of_chars(&g),
                                        name: string_of_chars(&n),
                                        torrent_url: string_of_chars(&t),
                                        magnet: string_of_chars(&m),
                                        date: string_of_chars(&d),
                                    },
                                    js + 1,
                                ),
                            ),
                            _ => None,
                        }
                    } else {
                        None
                    }
                },
                None => None,
            }
        },
        None => None,
    }
}

fn e_parse_feed_obj(s: &Vec<char>, i: usize) -> (r: Option<(FeedsItem, usize)>)
    requires
        i <= s@.len(),
    ensures
        match r {
            Some((f, j)) => parse_feed_obj(s@, i as int) == Some((f@, j as int)) && i < j
                <= s@.len(),
            None => parse_feed_obj(s@, i as int) is None,
        },
{
    if i < s.len() && s[i] == '{' {
        e_parse_feed_fields(
            s,
            i + 1,
            true,
            FeedAcc { group: None, name: None, torrent_url: None, magnet: None, date: None },
        )
    } else {
        None
    }
}

fn e_parse_feed_elems(s: &Vec<char>, i: usize, first: bool) -> (r: Option<(Vec<FeedsItem>, usize)>)
    requires
        i <= s@.len(),
    ensures
        match r {
            Some((v, j)) => parse_feed_elems(s@, i as int, first) == Some(
                (v@.map_values(|f: FeedsItem| f@), j as int),
            ) && i < j <= s@.len(),
            None => parse_feed_elems(s@, i as int, first) is None,
        },
    decreases s@.len() - i,
{
    let j = crate::json::e_skip_ws(s, i);
    if j >= s.len() {
        return None;
    }
    if first && s[j] == ']' {
        let out: Vec<FeedsItem> = Vec::new();
        proof {
            assert(out@.map_values(|f: FeedsItem| f@) =~= Seq::<FeedView>::empty());
        }
        return Some((out, j + 1));
    }
    match e_parse_feed_obj(s, j) {
        Some((f, je)) => {
            let js = crate::json::e_skip_ws(s, je);
            if js >= s.len() {
                return None;
            }
            if s[js] == ',' {
                match e_parse_feed_elems(s, js + 1, false) {
                    Some((mut rest, end)) => {
                        let ghost rest0 = rest@;
                        let ghost fv = f@;
                        rest.insert(0, f);
                        proof {
                            assert(rest@.map_values(|x: FeedsItem| x@) =~= seq![fv]
                                + rest0.map_values(|x: FeedsItem| x@));
                        }
                        Some((rest, end))
                    },
                    None => None,
                }
            } else if s[js] == ']' {
                let ghost fv = f@;
                let mut out: Vec<FeedsItem> = Vec::new();
                out.push(f);
                proof {
                    assert(out@.map_values(|x: FeedsItem| x@) =~= seq![fv]);
                }
                Some((out, js + 1))
            } else {
                None
            }
        },
        None => None,
    }
}

/// Parses a whole feed document into its entries. Succeeds exactly on the
/// documents the grammar of [`spec_parse_feeds`] accepts.
pub fn parse_feeds(body: &str) -> (r: Result<Vec<FeedsItem>, String>)
    ensures
        r matches Ok(v) ==> spec_parse_feeds(body@) == Some(v@.map_values(|f: FeedsItem| f@)),
        r is Err ==> spec_parse_feeds(body@) is None,
        r matches Err(e) ==> e@ == "failed to parse feeds json"@,
{
    let s = chars_of(body);
    let i = crate::json::e_skip_ws(&s, 0);
    if i < s.len() && s[i] == '[' {
        match e_parse_feed_elems(&s, i + 1, true) {
            Some((fs, j)) => {
                let j2 = crate::json::e_skip_ws(&s, j);
                if j2 == s.len() {
                    Ok(fs)
                } else {
                    Err("failed to parse feeds json".to_owned())
                }
            },
            None => Err("failed to parse feeds json".to_owned()),
        }
    } else {
        Err("failed to parse feeds json".to_owned())
    }
}

/// A fetched release feed: the catalog entries, in document order.
#[derive(Debug, Clone)]
pub struct Feeds {
    /// The feed's entries.
    pub items: Vec<FeedsItem>,
}

impl Feeds {
    /// Builds the feed from a fetched document body. Fails exactly when the
    /// body is not a well-formed feed document or when the feed it denotes
    /// is empty: an empty feed is a failure, not an empty success.
    pub fn new(body: &str) -> (r: Result<Feeds, String>)
        ensures
            r matches Ok(f) ==> (spec_parse_feeds(body@) == Some(
                f.items@.map_values(|x: FeedsItem| x@),
            ) && f.items@.len() > 0),
            r is Err <==> (spec_parse_feeds(body@) is None || spec_parse_feeds(body@)
                == Some(Seq::<FeedView>::empty())),
            r matches Err(e) ==> e@ == (if spec_parse_feeds(body@) is None {
                "failed to parse feeds json"@
            } else {
                "feed list is empty"@
            }),
    {
        match parse_feeds(body) {
            Ok(items) => {
                if items.len() == 0 {
                    proof {
                        assert(items@.map_values(|f: FeedsItem| f@) =~= Seq::<FeedView>::empty());
                    }
                    Err("feed list is empty".to_owned())
                } else {
                    proof {
                        assert(items@.map_values(|f: FeedsItem| f@).len() == items@.len());
                        assert(Seq::<FeedView>::empty().len() == 0);
                    }
                    Ok(Feeds { items })
                }
            },
            Err(e) => Err(e),
        }
    }
}

/// Whether a cached feed list is used in place of a network fetch: exactly
/// when it is non-empty.
pub fn use_cached_feeds(cache: &Vec<FeedsItem>) -> (r: bool)
    ensures
        r == (cache@.len() > 0),
{
    cache.len() > 0
}

/// The group labels of a list of feed entries, in order.
pub open spec fn groups_of_items(items: Seq<FeedsItem>) -> Seq<Seq<char>> {
    items.map_values(|f: FeedsItem| f.group@)
}

/// Deduplicates group labels, keeping the first occurrence of each and
/// dropping the sentinel label `"all"` wherever it appears.
pub open spec fn dedup_non_sentinel(s: Seq<Seq<char>>) -> Seq<Seq<char>>
    decreases s.len(),
{
    if s.len() == 0 {
        Seq::empty()
    } else {
        let rest = dedup_non_sentinel(s.drop_last());
        if s.last() == "all"@ || rest.contains(s.last()) {
            rest
        } else {
            rest.push(s.last())
        }
    }
}

/// The filter-selector list for a sequence of group labels: the sentinel
/// `"all"` first, then each distinct label in first-occurrence order.
pub open spec fn spec_group_list(gs: Seq<Seq<char>>) -> Seq<Seq<char>> {
    seq!["all"@] + dedup_non_sentinel(gs)
}

proof fn lemma_dedup_distinct(s: Seq<Seq<char>>)
    ensures
        forall|i: int, j: int|
            0 <= i < j < dedup_non_sentinel(s).len() ==> dedup_non_sentinel(s)[i]
                != dedup_non_sentinel(s)[j],
        forall|i: int|
            0 <= i < dedup_non_sentinel(s).len() ==> dedup_non_sentinel(s)[i] != "all"@,
    decreases s.len(),
{
    if s.len() == 0 {
    } else {
        let pre = s.drop_last();
        lemma_dedup_distinct(pre);
        let rest = dedup_non_sentinel(pre);
        if s.last() == "all"@ || rest.contains(s.last()) {
        } else {
            let d = rest.push(s.last());
            assert(forall|i: int| 0 <= i < rest.len() ==> d[i] == rest[i]);
            assert(forall|i: int| 0 <= i < rest.len() ==> rest[i] != s.last()) by {
                assert(forall|i: int|
                    0 <= i < rest.len() && rest[i] == s.last() ==> rest.contains(s.last()));
            }
        }
    }
}

proof fn lemma_dedup_prepend_sentinel(s: Seq<Seq<char>>)
    ensures
        dedup_non_sentinel(seq!["all"@] + s) == dedup_non_sentinel(s),
    decreases s.len(),
{
    reveal_with_fuel(dedup_non_sentinel, 3);
    let t = seq!["all"@] + s;
    if s.len() == 0 {
        assert(t.drop_last() =~= Seq::<Seq<char>>::empty());
        assert(t.last() == "all"@);
    } else {
        lemma_dedup_prepend_sentinel(s.drop_last());
        assert(t.drop_last() =~= seq!["all"@] + s.drop_last());
        assert(t.last() == s.last());
    }
}

proof fn lemma_dedup_stable(s: Seq<Seq<char>>)
    requires
        forall|i: int, j: int| 0 <= i < j < s.len() ==> s[i] != s[j],
        forall|i: int| 0 <= i < s.len() ==> s[i] != "all"@,
    ensures
        dedup_non_sentinel(s) == s,
    decreases s.len(),
{
    if s.len() == 0 {
        assert(dedup_non_sentinel(s) =~= s);
    } else {
        let pre = s.drop_last();
        lemma_dedup_stable(pre);
        assert(s.last() != "all"@);
        assert(!pre.contains(s.last())) by {
            if pre.contains(s.last()) {
                let i = choose|i: int| 0 <= i < pre.len() && pre[i] == s.last();
                assert(s[i] == s[s.len() - 1]);
            }
        }
        assert(pre.push(s.last()) =~= s);
    }
}

/// The group-list computation is idempotent: applied to a list it produced,
/// it returns that list unchanged, and the sentinel `"all"` stands exactly
/// once, at the head.
pub proof fn lemma_group_list_idempotent(gs: Seq<Seq<char>>)
    ensures
        spec_group_list(spec_group_list(gs)) == spec_group_list(gs),
        spec_group_list(gs)[0] == "all"@,
        forall|i: int| 1 <= i < spec_group_list(gs).len() ==> spec_group_list(gs)[i] != "all"@,
{
    let d = dedup_non_sentinel(gs);
    lemma_dedup_prepend_sentinel(d);
    lemma_dedup_distinct(gs);
    lemma_dedup_stable(d);
    assert(spec_group_list(spec_group_list(gs)) == seq!["all"@] + d);
    assert(forall|i: int| 1 <= i < spec_group_list(gs).len() ==> spec_group_list(gs)[i] == d[i
        - 1]);
}

/// Whether some entry of `v` holds exactly the characters of `x`.
fn vec_has_string(v: &Vec<String>, x: &str) -> (b: bool)
    ensures
        b == exists|k: int| 0 <= k < v@.len() && v@[k]@ == x@,
{
    let mut i: usize = 0;
    while i < v.len()
        invariant
            i <= v@.len(),
            forall|k: int| 0 <= k < i ==> v@[k]@ != x@,
        decreases v@.len() - i,
    {
        if str_eq(v[i].as_str(), x) {
            return true;
        }
        i = i + 1;
    }
    false
}

/// Computes the filter-selector list for a feed: `"all"` first, then each
/// distinct group label in order of first appearance. A label equal to the
/// sentinel itself is never added a second time.
pub fn feed_filter_groups(feeds: &Vec<FeedsItem>) -> (r: Vec<String>)
    ensures
        r@.map_values(|s: String| s@) == spec_group_list(groups_of_items(feeds@)),
{
    let ghost g = groups_of_items(feeds@);
    let mut out: Vec<String> = Vec::new();
    out.push("all".to_owned());
    proof {
        assert(g.take(0) =~= Seq::<Seq<char>>::empty());
        assert(out@.map_values(|s: String| s@) =~= seq!["all"@] + dedup_non_sentinel(g.take(0)));
    }
    let mut i: usize = 0;
    while i < feeds.len()
        invariant
            i <= feeds@.len(),
            g == groups_of_items(feeds@),
            g.len() == feeds@.len(),
            out@.len() >= 1,
            out@[0]@ == "all"@,
            out@.map_values(|s: String| s@) == seq!["all"@] + dedup_non_sentinel(g.take(i as int)),
        decreases feeds@.len() - i,
    {
        let ghost rest = dedup_non_sentinel(g.take(i as int));
        proof {
            assert(g.take(i + 1).drop_last() =~= g.take(i as int));
            assert(g.take(i + 1).last() == g[i as int]);
            assert(g[i as int] == feeds@[i as int].group@);
        }
        let gi = &feeds[i].group;
        if !str_eq(gi.as_str(), "all") && !vec_has_string(&out, gi.as_str()) {
            proof {
                assert(!rest.contains(gi@)) by {
                    if rest.contains(gi@) {
                        let k = choose|k: int| 0 <= k < rest.len() && rest[k] == gi@;
                        let m = out@.map_values(|s: String| s@);
                        assert(m.len() == out@.len());
                        assert((seq!["all"@] + rest)[k + 1] == rest[k]);
                        assert(m[k + 1] == out@[k + 1]@);
                        assert(out@[k + 1]@ == gi@);
                    }
                }
            }
            let ghost out0 = out@;
            out.push(gi.clone());
            proof {
                assert(out@.map_values(|s: String| s@) =~= out0.map_values(|s: String| s@).push(
                    gi@,
                ));
                assert(out@.map_values(|s: String| s@) =~= seq!["all"@] + dedup_non_sentinel(
                    g.take(i + 1),
                ));
            }
        } else {
            proof {
                if gi@ != "all"@ {
                    let k = choose|k: int| 0 <= k < out@.len() && out@[k]@ == gi@;
                    let m = out@.map_values(|s: String| s@);
                    assert(m.len() == out@.len());
                    assert(m[k] == out@[k]@);
                    assert(k >= 1);
                    assert((seq!["all"@] + rest)[k] == rest[k - 1]);
                    assert(rest[k - 1] == m[k]);
                    assert(rest.contains(gi@));
                }
                assert(out@.map_values(|s: String| s@) =~= seq!["all"@] + dedup_non_sentinel(
                    g.take(i + 1),
                ));
            }
        }
        i = i + 1;
    }
    proof {
        assert(g.take(feeds@.len() as int) =~= g);
    }
    out
}

/// Whether one feed entry passes the browse filters: the group selector
/// admits it (the sentinel admits every entry) and the name filter, when it
/// is nonempty, occurs in the entry's name.
pub open spec fn feed_visible(f: FeedView, group: Seq<char>, needle: Seq<char>) -> bool {
    (group == "all"@ || group == f.group) && (needle.len() == 0 || has_sub(f.name, needle))
}

fn clone_item(f: &FeedsItem) -> (r: FeedsItem)
    ensures
        r@ == f@,
{
    FeedsItem {
        group: f.group.clone(),
        name: f.name.clone(),
        torrent_url: f.torrent_url.clone(),
        magnet: f.magnet.clone(),
        date: f.date.clone(),
    }
}

/// The entries visible under the given group selection and name filter, in
/// feed order.
pub fn filter_feeds(feeds: &Vec<FeedsItem>, group: &str, needle: &str) -> (r: Vec<FeedsItem>)
    ensures
        r@.map_values(|f: FeedsItem| f@) == feeds@.map_values(|f: FeedsItem| f@).filter(
            |f: FeedView| feed_visible(f, group@, needle@),
        ),
{
    let ghost fv = feeds@.map_values(|f: FeedsItem| f@);
    let ghost pred = |f: FeedView| feed_visible(f, group@, needle@);
    let needle_chars = chars_of(needle);
    let mut out: Vec<FeedsItem> = Vec::new();
    proof {
        reveal_with_fuel(Seq::filter, 2);
        assert(fv.take(0) =~= Seq::<FeedView>::empty());
        assert(out@.map_values(|f: FeedsItem| f@) =~= fv.take(0).filter(pred));
    }
    let mut i: usize = 0;
    while i < feeds.len()
        invariant
            i <= feeds@.len(),
            fv == feeds@.map_values(|f: FeedsItem| f@),
            fv.len() == feeds@.len(),
            needle_chars@ == needle@,
            pred == (|f: FeedView| feed_visible(f, group@, needle@)),
            out@.map_values(|f: FeedsItem| f@) == fv.take(i as int).filter(pred),
        decreases feeds@.len() - i,
    {
        proof {
            assert(fv.take(i + 1).drop_last() =~= fv.take(i as int));
            assert(fv.take(i + 1).last() == fv[i as int]);
            assert(fv[i as int] == feeds@[i as int]@);
        }
        let item = &feeds[i];
        let group_ok = str_eq(group, "all") || str_eq(group, item.group.as_str());
        let name_ok = needle_chars.len() == 0 || {
            let hay = chars_of(item.name.as_str());
            crate::text::contains_chars(&hay, &needle_chars)
        };
        if group_ok && name_ok {
            let ghost out0 = out@;
            out.push(clone_item(item));
            proof {
                reveal_with_fuel(Seq::filter, 2);
                assert(pred(fv[i as int]));
                assert(out@.map_values(|f: FeedsItem| f@) =~= out0.map_values(|f: FeedsItem| f@)
                    .push(feeds@[i as int]@));
                assert(out@.map_values(|f: FeedsItem| f@) =~= fv.take(i + 1).filter(pred));
            }
        } else {
            proof {
                reveal_with_fuel(Seq::filter, 2);
                assert(!pred(fv[i as int]));
                assert(out@.map_values(|f: FeedsItem| f@) =~= fv.take(i + 1).filter(pred));
            }
        }
        i = i + 1;
    }
    proof {
        assert(fv.take(feeds@.len() as int) =~= fv);
    }
    out
}

} // verus!
