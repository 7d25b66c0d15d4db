//! Deploy hooks: which events a hook subscribes to, how a requested event
//! list is normalized, and which URLs a hook may post to.

use vstd::prelude::*;
use vstd::string::StringExecFns;

use crate::text::{join, lemma_split_join, chars_of, range_eq, segs, split, split_ranges, trim, trim_range, trim_str};

verus! {

/// The deployment events a hook can subscribe to, in their canonical order.
pub open spec fn known_events() -> Seq<Seq<char>> {
    seq!["deployment.ready"@, "deployment.error"@, "deployment.queued"@]
}

/// The name of the `i`-th known event.
pub fn known_event(i: usize) -> (e: &'static str)
    requires
        i < 3,
    ensures
        e@ == known_events()[i as int],
{
    if i == 0 {
        "deployment.ready"
    } else if i == 1 {
        "deployment.error"
    } else {
        "deployment.queued"
    }
}

/// The requested events, trimmed, blanks skipped, duplicates dropped, in
/// order of first mention; or the first one that is not a known event.
pub open spec fn collect_events(evs: Seq<Seq<char>>) -> Result<Seq<Seq<char>>, Seq<char>>
    decreases evs.len(),
{
    if evs.len() == 0 {
        Ok(Seq::<Seq<char>>::empty())
    } else {
        match collect_events(evs.drop_last()) {
            Err(t) => Err(t),
            Ok(out) => {
                let t = trim(evs.last());
                if t.len() == 0 {
                    Ok(out)
                } else if !known_events().contains(t) {
                    Err(t)
                } else if out.contains(t) {
                    Ok(out)
                } else {
                    Ok(out.push(t))
                }
            },
        }
    }
}

/// The events a hook subscribes to: all known events when none (or only
/// blanks) are requested; else the requested ones; an unknown name is refused.
pub open spec fn spec_normalize_events(req: Option<Seq<Seq<char>>>) -> Result<Seq<Seq<char>>, Seq<char>> {
    match req {
        None => Ok(known_events()),
        Some(evs) => if evs.len() == 0 {
            Ok(known_events())
        } else {
            match collect_events(evs) {
                Err(t) => Err(t),
                Ok(out) => if out.len() == 0 {
                    Ok(known_events())
                } else {
                    Ok(out)
                },
            }
        },
    }
}

/// The view of an optional slice of requested event names.
pub open spec fn events_view(req: Option<&[String]>) -> Option<Seq<Seq<char>>> {
    match req {
        Some(s) => Some(s@.map_values(|x: String| x@)),
        None => None,
    }
}

/// A requested event name that no hook can subscribe to.
#[derive(Debug, Clone, PartialEq, Eq)]
pub enum EventsError {
    /// The (trimmed) name that is not a known event.
    UnknownEvent(String),
}

impl EventsError {
    pub open spec fn spec_message(self) -> Seq<char> {
        match self {
            EventsError::UnknownEvent(t) => "unknown event '"@ + t@ + "'; allowed: "@ + join(
                known_events(),
                ", "@,
            ),
        }
    }

    /// The text of the error, as shown to API clients.
    pub fn message(&self) -> (m: String)
        ensures
            m@ == self.spec_message(),
    {
        match self {
            EventsError::UnknownEvent(t) => {
                let mut m = String::from_str("unknown event '");
                m.append(t.as_str());
                m.append("'; allowed: ");
                let all: Vec<usize> = vec![0, 1, 2];
                let ghost kv = index_view(all@);
                assert(kv =~= known_events());
                let j = join_events(&all, ", ");
                m.append(j.as_str());
                m
            },
        }
    }
}

/// The event names that a list of indices into the known events stands for.
pub open spec fn index_view(ix: Seq<usize>) -> Seq<Seq<char>> {
    ix.map_values(|k: usize| known_events()[k as int])
}

/// The known events that `ix` names, joined with `sep`.
fn join_events(ix: &Vec<usize>, sep: &str) -> (s: String)
    requires
        forall|k: int| 0 <= k < ix.len() ==> ix@[k] < 3,
    ensures
        s@ == join(index_view(ix@), sep@),
{
    let mut s = String::new();
    let mut i: usize = 0;
    while i < ix.len()
        invariant
            i <= ix.len(),
            forall|k: int| 0 <= k < ix.len() ==> ix@[k] < 3,
            s@ == join(index_view(ix@).take(i as int), sep@),
        decreases ix.len() - i,
    {
        let ghost t = index_view(ix@).take(i as int + 1);
        assert(t.drop_last() =~= index_view(ix@).take(i as int));
        if i > 0 {
            s.append(sep);
        } else {
            assert(t =~= seq![known_events()[ix@[0] as int]]);
        }
        s.append(known_event(ix[i]));
        i = i + 1;
    }
    assert(index_view(ix@).take(ix.len() as int) =~= index_view(ix@));
    s
}

/// The index of the known event named `t`, when there is one.
fn known_index(t: &str) -> (r: Option<usize>)
    ensures
        match r {
            Some(k) => k < 3 && known_events()[k as int] == t@,
            None => !known_events().contains(t@),
        },
{
    let v = chars_of(t);
    let n = v.len();
    assert(v@.subrange(0, n as int) =~= t@);
    if range_eq(&v, 0, n, "deployment.ready") {
        Some(0)
    } else if range_eq(&v, 0, n, "deployment.error") {
        Some(1)
    } else if range_eq(&v, 0, n, "deployment.queued") {
        Some(2)
    } else {
        proof {
            if known_events().contains(t@) {
                let k = choose|k: int| 0 <= k < 3 && known_events()[k] == t@;
                assert(false);
            }
        }
        None
    }
}

proof fn lemma_known_distinct()
    ensures
        known_events()[0] != known_events()[1],
        known_events()[0] != known_events()[2],
        known_events()[1] != known_events()[2],
{
    reveal_strlit("deployment.ready");
    reveal_strlit("deployment.error");
    reveal_strlit("deployment.queued");
    assert(known_events()[0][11] != known_events()[1][11]);
    assert(known_events()[0].len() != known_events()[2].len());
    assert(known_events()[1].len() != known_events()[2].len());
}

proof fn lemma_collect_err_extends(s: Seq<Seq<char>>, i: int)
    requires
        0 <= i <= s.len(),
        collect_events(s.take(i)) is Err,
    ensures
        collect_events(s) == collect_events(s.take(i)),
    decreases s.len() - i,
{
    if i == s.len() {
        assert(s.take(i) =~= s);
    } else {
        assert(s.take(i + 1).drop_last() =~= s.take(i));
        lemma_collect_err_extends(s, i + 1);
    }
}

/// Normalize the requested event list of a hook into the comma-separated
/// form it is stored in.
pub fn normalize_events(requested: Option<&[String]>) -> (r: Result<String, EventsError>)
    ensures
        match r {
            Ok(s) => spec_normalize_events(events_view(requested)) matches Ok(list) && s@ == join(
                list,
                ","@,
            ),
            Err(EventsError::UnknownEvent(t)) => spec_normalize_events(events_view(requested))
                == Err::<Seq<Seq<char>>, Seq<char>>(t@),
        },
{
    let all: Vec<usize> = vec![0, 1, 2];
    assert(index_view(all@) =~= known_events());
    let evs = match requested {
        None => return Ok(join_events(&all, ",")),
        Some(e) => e,
    };
    let ghost ev = evs@.map_values(|x: String| x@);
    if evs.len() == 0 {
        return Ok(join_events(&all, ","));
    }
    proof {
        lemma_known_distinct();
    }
    let mut out: Vec<usize> = Vec::new();
    let mut i: usize = 0;
    assert(ev.take(0) =~= Seq::<Seq<char>>::empty());
    assert(index_view(out@) =~= Seq::<Seq<char>>::empty());
    while i < evs.len()
        invariant
            i <= evs.len(),
            ev == evs@.map_values(|x: String| x@),
            requested == Some(evs),
            evs.len() > 0,
            forall|k: int| 0 <= k < out.len() ==> out@[k] < 3,
            collect_events(ev.take(i as int)) == Ok::<Seq<Seq<char>>, Seq<char>>(index_view(out@)),
            known_events()[0] != known_events()[1],
            known_events()[0] != known_events()[2],
            known_events()[1] != known_events()[2],
        decreases evs.len() - i,
    {
        let ghost tk = ev.take(i as int + 1);
        assert(tk.drop_last() =~= ev.take(i as int));
        assert(tk.last() == evs@[i as int]@);
        let t = trim_str(evs[i].as_str());
        let tv = chars_of(t);
        if tv.len() == 0 {
            assert(t@.len() == 0);
        } else {
            match known_index(t) {
                None => {
                    proof {
                        assert(collect_events(tk) == Err::<Seq<Seq<char>>, Seq<char>>(t@));
                        lemma_collect_err_extends(ev, i as int + 1);
                    }
                    return Err(EventsError::UnknownEvent(String::from_str(t)));
                },
                Some(k) => {
                    let mut dup = false;
                    let mut j: usize = 0;
                    while j < out.len()
                        invariant
                            j <= out.len(),
                            k < 3,
                            !dup ==> forall|m: int| 0 <= m < j ==> out@[m] != k,
                            dup ==> index_view(out@).contains(known_events()[k as int]),
                        decreases out.len() - j,
                    {
                        if out[j] == k {
                            assert(index_view(out@)[j as int] == known_events()[k as int]);
                            dup = true;
                        }
                        j = j + 1;
                    }
                    if !dup {
                        proof {
                            if index_view(out@).contains(known_events()[k as int]) {
                                let m = choose|m: int|
                                    0 <= m < out.len() && index_view(out@)[m] == known_events()[k as int];
                                assert(known_events()[out@[m] as int] == known_events()[k as int]);
                                assert(out@[m] != k);
                                assert(false);
                            }
                        }
                        let ghost old_out = out@;
                        out.push(k);
                        assert(index_view(out@) =~= index_view(old_out).push(known_events()[k as int]));
                    }
                },
            }
        }
        i = i + 1;
    }
    assert(ev.take(evs.len() as int) =~= ev);
    if out.len() == 0 {
        Ok(join_events(&all, ","))
    } else {
        Ok(join_events(&out, ","))
    }
}

/// Whether a hook whose stored event list is `events` subscribes to `event`:
/// one of its comma-separated items, trimmed, reads `event`.
pub open spec fn spec_subscribed(events: Seq<char>, event: Seq<char>) -> bool {
    exists|k: int| 0 <= k < split(events, ',').len() && trim(#[trigger] split(events, ',')[k]) == event
}

/// Whether the stored event list `events` of a hook names `event`.
pub fn is_subscribed(events: &str, event: &str) -> (b: bool)
    ensures
        b == spec_subscribed(events@, event@),
{
    let v = chars_of(events);
    let n = v.len();
    assert(v@.subrange(0, n as int) =~= events@);
    let r = split_ranges(&v, 0, n, ',');
    let ev = chars_of(event);
    let ghost sp = split(events@, ',');
    let mut k: usize = 0;
    while k < r.len()
        invariant
            k <= r.len(),
            n == v.len(),
            ev@ == event@,
            sp == split(events@, ','),
            segs(v@, r@) == sp,
            forall|m: int| 0 <= m < r.len() ==> 0 <= (#[trigger] r@[m]).0 <= r@[m].1 <= n,
            forall|m: int| 0 <= m < k ==> trim(#[trigger] sp[m]) != event@,
        decreases r.len() - k,
    {
        let (a, b) = r[k];
        assert(r@[k as int] == (a, b));
        assert(sp[k as int] == v@.subrange(a as int, b as int));
        let (x, y) = trim_range(&v, a, b);
        let same = crate::text::ranges_equal(&v, x, y, &ev, 0, ev.len());
        assert(ev@.subrange(0, ev@.len() as int) =~= ev@);
        if same {
            assert(trim(sp[k as int]) == event@);
            return true;
        }
        k = k + 1;
    }
    false
}

proof fn lemma_known_event_shape(k: int)
    requires
        0 <= k < 3,
    ensures
        !known_events()[k].contains(','),
        trim(known_events()[k]) == known_events()[k],
{
    reveal_strlit("deployment.ready");
    reveal_strlit("deployment.error");
    reveal_strlit("deployment.queued");
    let x = known_events()[k];
    assert(!crate::text::is_ws(x[0]));
    assert(!crate::text::is_ws(x[x.len() - 1]));
    assert(crate::text::trim_start(x) == x);
    assert(crate::text::trim_end(x) == x);
    assert forall|m: int| 0 <= m < x.len() implies x[m] != ',' by {
        assert(0 <= m < 17);
    }
}

proof fn lemma_collect_known(evs: Seq<Seq<char>>)
    ensures
        collect_events(evs) matches Ok(out) ==> forall|k: int|
            0 <= k < out.len() ==> known_events().contains(#[trigger] out[k]),
    decreases evs.len(),
{
    if evs.len() > 0 {
        lemma_collect_known(evs.drop_last());
    }
}

/// A hook URL is accepted exactly when it is not empty and parses with an
/// `http` or `https` scheme, and an accepted URL is stored exactly as given
/// (after trimming): nothing is added to it or taken from it.
pub proof fn law_webhook_url_kept(t: Seq<char>, outcome: Result<Seq<char>, Seq<char>>)
    ensures
        webhook_url_verdict(t, outcome) matches Ok(x) ==> x == t,
        (webhook_url_verdict(t, outcome) is Ok) == (t.len() > 0 && (outcome matches Ok(s) && (s
            == "http"@ || s == "https"@))),
        t.len() == 0 ==> webhook_url_verdict(t, outcome) == Err::<Seq<char>, (int, Seq<char>)>(
            (0, Seq::<char>::empty()),
        ),
{
}

/// A hook stored with the normalized form of a requested event list is
/// notified of exactly the events in that list, and of no other.
pub proof fn law_subscription_matches_normalized(req: Option<Seq<Seq<char>>>, event: Seq<char>)
    requires
        spec_normalize_events(req) is Ok,
    ensures
        spec_subscribed(join(spec_normalize_events(req)->Ok_0, ","@), event)
            <==> spec_normalize_events(req)->Ok_0.contains(event),
{
    let list = spec_normalize_events(req)->Ok_0;
    match req {
        Some(evs) => {
            lemma_collect_known(evs);
        },
        None => {},
    }
    assert(list.len() >= 1);
    assert forall|k: int| 0 <= k < list.len() implies !(#[trigger] list[k]).contains(',')
        && trim(list[k]) == list[k] by {
        assert(known_events().contains(list[k]));
        let j = choose|j: int| 0 <= j < 3 && known_events()[j] == list[k];
        lemma_known_event_shape(j);
    }
    reveal_strlit(",");
    assert(","@ =~= seq![',']);
    lemma_split_join(list, ',');
    let joined = join(list, ","@);
    if spec_subscribed(joined, event) {
        let k = choose|k: int| 0 <= k < split(joined, ',').len() && trim(#[trigger] split(joined, ',')[k]) == event;
        assert(list[k] == event);
    }
    if list.contains(event) {
        let k = choose|k: int| 0 <= k < list.len() && list[k] == event;
        assert(trim(split(joined, ',')[k]) == event);
    }
}

/// What `url::Url::parse` makes of `input`: `Ok` with the parsed URL's
/// scheme (`Url::scheme`) when it parses, `Err` with the text (`Display`) of
/// the `url::ParseError` when it does not. A function of `input` alone.
pub uninterp spec fn url_parse_outcome(input: Seq<char>) -> Result<Seq<char>, Seq<char>>;

/// Calls `url::Url::parse` and returns the scheme of the URL, or the text of
/// the parse error. The contract claims only that the outcome is the named
/// function of the input; nothing about which inputs parse is stated.
#[verifier::external_body]
fn parse_url_scheme(input: &str) -> (r: Result<String, String>)
    ensures
        match r {
            Ok(s) => url_parse_outcome(input@) == Ok::<Seq<char>, Seq<char>>(s@),
            Err(e) => url_parse_outcome(input@) == Err::<Seq<char>, Seq<char>>(e@),
        },
{
    match url::Url::parse(input) {
        Ok(u) => Ok(u.scheme().to_string()),
        Err(e) => Err(e.to_string()),
    }
}

/// Why a hook URL was refused.
#[derive(Debug, Clone, PartialEq, Eq)]
pub enum WebhookUrlError {
    /// Nothing but whitespace was given.
    Required,
    /// The URL does not parse; the parser's explanation.
    Invalid(String),
    /// The URL's scheme is neither `http` nor `https`.
    NotHttp,
}

impl WebhookUrlError {
    pub open spec fn spec_message(self) -> Seq<char> {
        match self {
            WebhookUrlError::Required => "url is required"@,
            WebhookUrlError::Invalid(e) => "invalid url: "@ + e@,
            WebhookUrlError::NotHttp => "url must be http or https"@,
        }
    }

    /// The text of the error, as shown to API clients.
    pub fn message(&self) -> (m: String)
        ensures
            m@ == self.spec_message(),
    {
        match self {
            WebhookUrlError::Required => String::from_str("url is required"),
            WebhookUrlError::Invalid(e) => {
                let mut m = String::from_str("invalid url: ");
                m.append(e.as_str());
                m
            },
            WebhookUrlError::NotHttp => String::from_str("url must be http or https"),
        }
    }
}

/// The verdict on a trimmed hook URL, given what the URL parser made of it.
pub open spec fn webhook_url_verdict(t: Seq<char>, outcome: Result<Seq<char>, Seq<char>>) -> Result<
    Seq<char>,
    (int, Seq<char>),
> {
    if t.len() == 0 {
        Err((0, Seq::<char>::empty()))
    } else {
        match outcome {
            Err(e) => Err((1, e)),
            Ok(scheme) => if scheme == "http"@ || scheme == "https"@ {
                Ok(t)
            } else {
                Err((2, Seq::<char>::empty()))
            },
        }
    }
}

/// Kind and payload of a hook URL error.
pub open spec fn url_error_view(e: WebhookUrlError) -> (int, Seq<char>) {
    match e {
        WebhookUrlError::Required => (0, Seq::<char>::empty()),
        WebhookUrlError::Invalid(m) => (1, m@),
        WebhookUrlError::NotHttp => (2, Seq::<char>::empty()),
    }
}

/// The view of a parser outcome.
pub open spec fn outcome_view(o: Result<String, String>) -> Result<Seq<char>, Seq<char>> {
    match o {
        Ok(s) => Ok(s@),
        Err(e) => Err(e@),
    }
}

/// Decide on a trimmed hook URL, given the scheme the URL parser found in it
/// or the parser's error text: empty is refused, a parse failure is refused
/// with the parser's text, and only `http` and `https` are accepted.
pub fn check_webhook_url(trimmed: &str, parsed: Result<String, String>) -> (r: Result<
    String,
    WebhookUrlError,
>)
    ensures
        match r {
            Ok(u) => webhook_url_verdict(trimmed@, outcome_view(parsed)) == Ok::<
                Seq<char>,
                (int, Seq<char>),
            >(u@),
            Err(e) => webhook_url_verdict(trimmed@, outcome_view(parsed)) == Err::<
                Seq<char>,
                (int, Seq<char>),
            >(url_error_view(e)),
        },
        r matches Ok(u) ==> u@ == trimmed@,
{
    let v = chars_of(trimmed);
    if v.len() == 0 {
        return Err(WebhookUrlError::Required);
    }
    match parsed {
        Err(e) => Err(WebhookUrlError::Invalid(e)),
        Ok(scheme) => {
            let sv = chars_of(scheme.as_str());
            let n = sv.len();
            assert(sv@.subrange(0, n as int) =~= scheme@);
            if range_eq(&sv, 0, n, "http") || range_eq(&sv, 0, n, "https") {
                Ok(String::from_str(trimmed))
            } else {
                Err(WebhookUrlError::NotHttp)
            }
        },
    }
}

/// Validate the URL a hook posts to: trimmed, it must be non-empty, parse as
/// a URL, and use the `http` or `https` scheme. The accepted form is the
/// trimmed text.
pub fn validate_webhook_url(url: &str) -> (r: Result<String, WebhookUrlError>)
    ensures
        match r {
            Ok(u) => webhook_url_verdict(trim(url@), url_parse_outcome(trim(url@))) == Ok::<
                Seq<char>,
                (int, Seq<char>),
            >(u@),
            Err(e) => webhook_url_verdict(trim(url@), url_parse_outcome(trim(url@))) == Err::<
                Seq<char>,
                (int, Seq<char>),
            >(url_error_view(e)),
        },
        r matches Ok(u) ==> u@ == trim(url@),
{
    let t = trim_str(url);
    let tv = chars_of(t);
    if tv.len() == 0 {
        return Err(WebhookUrlError::Required);
    }
    let parsed = parse_url_scheme(t);
    check_webhook_url(t, parsed)
}

/// The event a deployment announces when it enters `status`: `queued`,
/// `ready` and `error` each have one; other statuses announce nothing.
pub open spec fn spec_status_event(status: Seq<char>) -> Option<Seq<char>> {
    if status == "queued"@ {
        Some("deployment.queued"@)
    } else if status == "ready"@ {
        Some("deployment.ready"@)
    } else if status == "error"@ {
        Some("deployment.error"@)
    } else {
        None
    }
}

/// The webhook event for a deployment that has just entered `status`.
pub fn status_event(status: &str) -> (e: Option<String>)
    ensures
        crate::text::opt_string_view(e) == spec_status_event(status@),
        e matches Some(x) ==> known_events().contains(x@),
{
    let v = chars_of(status);
    let n = v.len();
    assert(v@.subrange(0, n as int) =~= status@);
    let r = if range_eq(&v, 0, n, "queued") {
        Some(String::from_str("deployment.queued"))
    } else if range_eq(&v, 0, n, "ready") {
        Some(String::from_str("deployment.ready"))
    } else if range_eq(&v, 0, n, "error") {
        Some(String::from_str("deployment.error"))
    } else {
        None
    };
    proof {
        assert(known_events()[0] == "deployment.ready"@);
        assert(known_events()[1] == "deployment.error"@);
        assert(known_events()[2] == "deployment.queued"@);
    }
    r
}

/// A deployment announces `deployment.<status>` when it becomes queued,
/// ready or failed (`error`), and nothing for any other status.
pub proof fn law_status_events(status: Seq<char>)
    ensures
        spec_status_event(status) matches Some(e) ==> e == "deployment."@ + status,
        (spec_status_event(status) is Some) == (status == "queued"@ || status == "ready"@ || status
            == "error"@),
{
    reveal_strlit("deployment.");
    reveal_strlit("deployment.queued");
    reveal_strlit("deployment.ready");
    reveal_strlit("deployment.error");
    reveal_strlit("queued");
    reveal_strlit("ready");
    reveal_strlit("error");
    if status == "queued"@ {
        assert("deployment.queued"@ =~= "deployment."@ + status);
    } else if status == "ready"@ {
        assert("deployment.ready"@ =~= "deployment."@ + status);
    } else if status == "error"@ {
        assert("deployment.error"@ =~= "deployment."@ + status);
    }
}

} // verus!
