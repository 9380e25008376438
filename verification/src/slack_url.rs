//! Parsing of a Slack message permalink into its stable identifiers: the
//! channel id, the permalinked message's timestamp, and, when the link
//! points into a thread, the thread root's timestamp.
//!
//! Splitting the raw URL text into path segments and query pairs is done
//! by the `url` crate behind a trusted wrapper; everything after that
//! split is verified.

use vstd::prelude::*;
use vstd::string::StrSliceExecFns;
use vstd::string::StringExecFns;

verus! {

/// What a URL parser makes of a piece of text: `None` when the text is
/// not a URL with a path, otherwise the path segments and the decoded
/// query key/value pairs.
pub uninterp spec fn url_parts_of(s: Seq<char>) -> Option<
    (Seq<Seq<char>>, Seq<(Seq<char>, Seq<char>)>),
>;

/// The path segments and query pairs of a parsed URL.
pub struct UrlParts {
    pub segments: Vec<String>,
    pub query: Vec<(String, String)>,
}

/// Relies on `url::Url::parse` (splitting the text into URL components),
/// `Url::path_segments` (the slash-separated path, `None` for a URL that
/// cannot be a base) and `Url::query_pairs` (the form-urlencoded query
/// decoded into key/value pairs). All three depend on the URL text alone.
#[verifier::external_body]
fn split_url(s: &str) -> (r: Result<UrlParts, String>)
    ensures
        r is Ok <==> url_parts_of(s@) is Some,
        r matches Ok(parts) ==> url_parts_of(s@) == Some(
            (parts.segments.deep_view(), parts.query.deep_view()),
        ),
{
    match url::Url::parse(s) {
        Err(e) => Err(e.to_string()),
        Ok(u) => match u.path_segments() {
            None => Err(String::from("the URL cannot have path segments")),
            Some(segments) => Ok(UrlParts {
                segments: segments.map(String::from).collect(),
                query: u.query_pairs().map(|(k, v)| (k.into_owned(), v.into_owned())).collect(),
            }),
        },
    }
}

/// Why a permalink could not be parsed.
#[derive(Debug, Clone, PartialEq, Eq)]
pub enum Error {
    /// The text is not a URL with a path; carries the parser diagnostic.
    UrlCrateCouldNotParse { url: String, detail: String },
    /// No path segment starts with `C`, `D` or `G`.
    ChannelIdNotFoundInPathSegments,
    /// No path segment starts with `p`.
    TimestampNotFound { url: String },
    /// The timestamp segment has fewer than ten digits after the `p`.
    TimestampCouldNotBeParsed { url: String },
}

/// The identifiers a permalink carries.
#[derive(Debug, Clone)]
pub struct SlackUrl {
    pub channel_id: String,
    pub ts: String,
    pub thread_ts: Option<String>,
}

/// A channel id segment starts with `C`, `D` or `G`.
pub open spec fn is_channel_segment(s: Seq<char>) -> bool {
    s.len() > 0 && (s[0] == 'C' || s[0] == 'D' || s[0] == 'G')
}

/// A timestamp segment starts with `p`.
pub open spec fn is_ts_segment(s: Seq<char>) -> bool {
    s.len() > 0 && s[0] == 'p'
}

/// The first path segment that looks like a channel id.
pub open spec fn spec_find_channel_id(segs: Seq<Seq<char>>) -> Option<Seq<char>>
    decreases segs.len(),
{
    if segs.len() == 0 {
        None
    } else if is_channel_segment(segs[0]) {
        Some(segs[0])
    } else {
        spec_find_channel_id(segs.skip(1))
    }
}

/// The first path segment that looks like an encoded timestamp.
pub open spec fn spec_find_ts_segment(segs: Seq<Seq<char>>) -> Option<Seq<char>>
    decreases segs.len(),
{
    if segs.len() == 0 {
        None
    } else if is_ts_segment(segs[0]) {
        Some(segs[0])
    } else {
        spec_find_ts_segment(segs.skip(1))
    }
}

/// The timestamp a `p`-segment encodes: drop the `p`, then put a decimal
/// point after the first ten digits (Slack concatenates ten integer and
/// six fractional digits).
pub open spec fn spec_ts_from_segment(seg: Seq<char>) -> Seq<char> {
    seg.subrange(1, 11) + seq!['.'] + seg.skip(11)
}

/// The query key under which a permalink carries the thread root's
/// timestamp.
pub open spec fn thread_ts_key() -> Seq<char> {
    seq!['t', 'h', 'r', 'e', 'a', 'd', '_', 't', 's']
}

/// The value of the first `thread_ts` query pair, if any.
pub open spec fn spec_find_thread_ts(q: Seq<(Seq<char>, Seq<char>)>) -> Option<Seq<char>>
    decreases q.len(),
{
    if q.len() == 0 {
        None
    } else if q[0].0 == thread_ts_key() {
        Some(q[0].1)
    } else {
        spec_find_thread_ts(q.skip(1))
    }
}

/// The complete outcome `SlackUrl::new` owes for input `s`: each error
/// exactly on the inputs that produce it, and on success the three
/// identifiers the URL embeds.
pub open spec fn parse_outcome_matches(s: Seq<char>, r: Result<SlackUrl, Error>) -> bool {
    match url_parts_of(s) {
        None => r matches Err(e) && e matches Error::UrlCrateCouldNotParse { .. },
        Some(parts) => match spec_find_channel_id(parts.0) {
            None => r == Err::<SlackUrl, Error>(Error::ChannelIdNotFoundInPathSegments),
            Some(cid) => match spec_find_ts_segment(parts.0) {
                None => r matches Err(e) && e matches Error::TimestampNotFound { .. },
                Some(seg) => if seg.len() < 11 {
                    r matches Err(e) && e matches Error::TimestampCouldNotBeParsed { .. }
                } else {
                    r matches Ok(su) && su.channel_id@ == cid && su.ts@ == spec_ts_from_segment(seg)
                        && match spec_find_thread_ts(parts.1) {
                        None => su.thread_ts is None,
                        Some(v) => su.thread_ts matches Some(t) && t@ == v,
                    }
                },
            },
        },
    }
}

impl SlackUrl {
    /// Parses a permalink into channel id, timestamp and optional thread
    /// timestamp.
    pub fn new(url_string: &str) -> (r: Result<SlackUrl, Error>)
        ensures
            parse_outcome_matches(url_string@, r),
    {
        let parts = match split_url(url_string) {
            Ok(parts) => parts,
            Err(detail) => {
                return Err(
                    Error::UrlCrateCouldNotParse { url: url_string.to_owned(), detail },
                );
            },
        };
        let channel_id = match Self::parse_channel_id(&parts.segments) {
            Ok(c) => c,
            Err(e) => {
                return Err(e);
            },
        };
        let ts = match Self::parse_ts(url_string, &parts.segments) {
            Ok(t) => t,
            Err(e) => {
                return Err(e);
            },
        };
        let thread_ts = Self::parse_thread_ts(&parts.query);
        Ok(SlackUrl { channel_id, ts, thread_ts })
    }

    /// The first path segment starting with `C`, `D` or `G`.
    pub fn parse_channel_id(path_segments: &Vec<String>) -> (r: Result<String, Error>)
        ensures
            match spec_find_channel_id(path_segments.deep_view()) {
                Some(v) => r matches Ok(c) && c@ == v,
                None => r == Err::<String, Error>(Error::ChannelIdNotFoundInPathSegments),
            },
    {
        let ghost dv = path_segments.deep_view();
        let mut i: usize = 0;
        proof {
            assert(dv.skip(0) =~= dv);
        }
        while i < path_segments.len()
            invariant
                i <= dv.len(),
                dv == path_segments.deep_view(),
                dv.len() == path_segments@.len(),
                forall|k: int| 0 <= k < dv.len() ==> dv[k] == path_segments@[k]@,
                spec_find_channel_id(dv) == spec_find_channel_id(dv.skip(i as int)),
            decreases dv.len() - i,
        {
            let seg = &path_segments[i];
            proof {
                assert(dv.skip(i as int)[0] == dv[i as int]);
                assert(dv.skip(i as int).skip(1) =~= dv.skip(i as int + 1));
            }
            if seg.as_str().unicode_len() > 0 {
                let c = seg.as_str().get_char(0);
                if c == 'C' || c == 'D' || c == 'G' {
                    proof {
                        assert(is_channel_segment(dv[i as int]));
                        assert(spec_find_channel_id(dv.skip(i as int)) == Some(dv[i as int]));
                    }
                    return Ok(seg.clone());
                }
            }
            proof {
                assert(!is_channel_segment(dv[i as int]));
            }
            i = i + 1;
        }
        Err(Error::ChannelIdNotFoundInPathSegments)
    }

    /// The timestamp encoded in the first `p`-prefixed path segment.
    pub fn parse_ts(url: &str, path_segments: &Vec<String>) -> (r: Result<String, Error>)
        ensures
            match spec_find_ts_segment(path_segments.deep_view()) {
                Some(seg) => if seg.len() < 11 {
                    r matches Err(e) && e matches Error::TimestampCouldNotBeParsed { .. }
                } else {
                    r matches Ok(t) && t@ == spec_ts_from_segment(seg)
                },
                None => r matches Err(e) && e matches Error::TimestampNotFound { .. },
            },
    {
        let ghost dv = path_segments.deep_view();
        let mut i: usize = 0;
        proof {
            assert(dv.skip(0) =~= dv);
        }
        while i < path_segments.len()
            invariant
                i <= dv.len(),
                dv == path_segments.deep_view(),
                dv.len() == path_segments@.len(),
                forall|k: int| 0 <= k < dv.len() ==> dv[k] == path_segments@[k]@,
                spec_find_ts_segment(dv) == spec_find_ts_segment(dv.skip(i as int)),
            decreases dv.len() - i,
        {
            let seg = &path_segments[i];
            proof {
                assert(dv.skip(i as int)[0] == dv[i as int]);
                assert(dv.skip(i as int).skip(1) =~= dv.skip(i as int + 1));
            }
            let len = seg.as_str().unicode_len();
            if len > 0 && seg.as_str().get_char(0) == 'p' {
                proof {
                    assert(is_ts_segment(dv[i as int]));
                    assert(spec_find_ts_segment(dv.skip(i as int)) == Some(dv[i as int]));
                }
                if len < 11 {
                    return Err(Error::TimestampCouldNotBeParsed { url: url.to_owned() });
                }
                let digits = seg.as_str().substring_char(1, 11);
                let rest = seg.as_str().substring_char(11, len);
                let mut ts = digits.to_owned();
                ts.append(".");
                ts.append(rest);
                proof {
                    reveal_strlit(".");
                    assert("."@ =~= seq!['.']);
                    assert(ts@ == spec_ts_from_segment(dv[i as int]));
                }
                return Ok(ts);
            }
            proof {
                assert(!is_ts_segment(dv[i as int]));
            }
            i = i + 1;
        }
        Err(Error::TimestampNotFound { url: url.to_owned() })
    }

    /// The value of the `thread_ts` query parameter, if present.
    pub fn parse_thread_ts(query: &Vec<(String, String)>) -> (r: Option<String>)
        ensures
            match spec_find_thread_ts(query.deep_view()) {
                Some(v) => r matches Some(t) && t@ == v,
                None => r is None,
            },
    {
        let key: String = "thread_ts".to_owned();
        proof {
            reveal_strlit("thread_ts");
            assert(key@ =~= thread_ts_key());
        }
        let ghost dv = query.deep_view();
        let mut i: usize = 0;
        proof {
            assert(dv.skip(0) =~= dv);
        }
        while i < query.len()
            invariant
                i <= dv.len(),
                dv == query.deep_view(),
                dv.len() == query@.len(),
                key@ == thread_ts_key(),
                forall|k: int|
                    0 <= k < dv.len() ==> dv[k] == (query@[k].0@, query@[k].1@),
                spec_find_thread_ts(dv) == spec_find_thread_ts(dv.skip(i as int)),
            decreases dv.len() - i,
        {
            proof {
                assert(dv.skip(i as int)[0] == dv[i as int]);
                assert(dv.skip(i as int).skip(1) =~= dv.skip(i as int + 1));
            }
            if query[i].0.eq(&key) {
                proof {
                    assert(dv[i as int].0 == thread_ts_key());
                    assert(spec_find_thread_ts(dv.skip(i as int)) == Some(dv[i as int].1));
                }
                return Some(query[i].1.clone());
            }
            proof {
                assert(dv[i as int].0 != thread_ts_key());
            }
            i = i + 1;
        }
        None
    }
}

/// A segment list whose first channel-shaped segment stands at `i` parses
/// to exactly that segment.
pub proof fn lemma_channel_id_recovered(segs: Seq<Seq<char>>, i: int)
    requires
        0 <= i < segs.len(),
        is_channel_segment(segs[i]),
        forall|k: int| 0 <= k < i ==> !is_channel_segment(segs[k]),
    ensures
        spec_find_channel_id(segs) == Some(segs[i]),
    decreases i,
{
    if i == 0 {
    } else {
        assert(!is_channel_segment(segs[0]));
        assert(segs.skip(1)[i - 1] == segs[i]);
        assert(forall|k: int| 0 <= k < i - 1 ==> segs.skip(1)[k] == segs[k + 1]);
        lemma_channel_id_recovered(segs.skip(1), i - 1);
    }
}

/// A segment list without any channel-shaped segment never yields a
/// channel id.
pub proof fn lemma_channel_id_absent(segs: Seq<Seq<char>>)
    requires
        forall|k: int| 0 <= k < segs.len() ==> !is_channel_segment(segs[k]),
    ensures
        spec_find_channel_id(segs) is None,
    decreases segs.len(),
{
    if segs.len() > 0 {
        assert(forall|k: int| 0 <= k < segs.skip(1).len() ==> segs.skip(1)[k] == segs[k + 1]);
        lemma_channel_id_absent(segs.skip(1));
    }
}

/// A segment list whose first `p`-segment stands at `i` yields exactly
/// that segment as the timestamp segment.
pub proof fn lemma_ts_segment_recovered(segs: Seq<Seq<char>>, i: int)
    requires
        0 <= i < segs.len(),
        is_ts_segment(segs[i]),
        forall|k: int| 0 <= k < i ==> !is_ts_segment(segs[k]),
    ensures
        spec_find_ts_segment(segs) == Some(segs[i]),
    decreases i,
{
    if i == 0 {
    } else {
        assert(!is_ts_segment(segs[0]));
        assert(segs.skip(1)[i - 1] == segs[i]);
        assert(forall|k: int| 0 <= k < i - 1 ==> segs.skip(1)[k] == segs[k + 1]);
        lemma_ts_segment_recovered(segs.skip(1), i - 1);
    }
}

/// A query whose first `thread_ts` pair stands at `i` yields exactly that
/// pair's value.
pub proof fn lemma_thread_ts_recovered(q: Seq<(Seq<char>, Seq<char>)>, i: int)
    requires
        0 <= i < q.len(),
        q[i].0 == thread_ts_key(),
        forall|k: int| 0 <= k < i ==> q[k].0 != thread_ts_key(),
    ensures
        spec_find_thread_ts(q) == Some(q[i].1),
    decreases i,
{
    if i == 0 {
    } else {
        assert(q.skip(1)[i - 1] == q[i]);
        assert(forall|k: int| 0 <= k < i - 1 ==> q.skip(1)[k] == q[k + 1]);
        lemma_thread_ts_recovered(q.skip(1), i - 1);
    }
}

/// Round trip for a well-formed permalink: with the channel id embedded
/// as the first channel-shaped segment, the timestamp embedded as the
/// first `p`-segment (ten or more digits), and the thread timestamp as
/// the first `thread_ts` query pair, parsing recovers exactly those three
/// values.
pub proof fn lemma_permalink_round_trip(
    segs: Seq<Seq<char>>,
    q: Seq<(Seq<char>, Seq<char>)>,
    ci: int,
    ti: int,
    qi: int,
)
    requires
        0 <= ci < segs.len(),
        is_channel_segment(segs[ci]),
        forall|k: int| 0 <= k < ci ==> !is_channel_segment(segs[k]),
        0 <= ti < segs.len(),
        is_ts_segment(segs[ti]),
        forall|k: int| 0 <= k < ti ==> !is_ts_segment(segs[k]),
        segs[ti].len() >= 11,
        0 <= qi < q.len(),
        q[qi].0 == thread_ts_key(),
        forall|k: int| 0 <= k < qi ==> q[k].0 != thread_ts_key(),
    ensures
        spec_find_channel_id(segs) == Some(segs[ci]),
        spec_find_ts_segment(segs) == Some(segs[ti]),
        spec_ts_from_segment(segs[ti]) == segs[ti].subrange(1, 11) + seq!['.'] + segs[ti].skip(11),
        spec_find_thread_ts(q) == Some(q[qi].1),
{
    lemma_channel_id_recovered(segs, ci);
    lemma_ts_segment_recovered(segs, ti);
    lemma_thread_ts_recovered(q, qi);
}

} // verus!
