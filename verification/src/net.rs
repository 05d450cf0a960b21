//! The HTTP proxy: by default none; `PVM_PROXY` picks the system's proxy or
//! names one. The environment and the registry are read by the caller.
use crate::text::{
    lowercase_of, to_lower,
    cat, contains_str, eq_ignore_case, eq_ignore_case_str, has_sub, split_char, split_str,
    starts_with, starts_with_str, trim, trim_str, views, find_first, find_char, lemma_find_from,
    contains_char,
};
use vstd::prelude::*;

verus! {

/// A proxy URL with a scheme: `host:port` becomes `http://host:port`.
pub open spec fn normalize_of(v: Seq<char>) -> Seq<char> {
    if has_sub(v, "://"@) {
        v
    } else {
        "http://"@ + v
    }
}

pub fn normalize(v: &str) -> (r: String)
    ensures
        r@ == normalize_of(v@),
{
    if contains_str(v, "://") {
        String::from_str(v)
    } else {
        cat("http://", v)
    }
}

/// What `PVM_PROXY` asks for.
#[derive(PartialEq, Eq, Debug)]
pub enum ProxyChoice {
    /// Connect directly (unset, empty or `direct`).
    Direct,
    /// Use the proxy of the environment or of Windows (`system`).
    System,
    /// Use this proxy.
    Custom(String),
}

pub open spec fn proxy_choice_of(var: Option<Seq<char>>) -> (bool, bool, Seq<char>) {
    match var {
        None => (true, false, Seq::empty()),
        Some(v) => {
            let t = trim(v);
            if t.len() == 0 || eq_ignore_case(t, "direct"@) {
                (true, false, Seq::empty())
            } else if eq_ignore_case(t, "system"@) {
                (false, true, Seq::empty())
            } else {
                (false, false, normalize_of(t))
            }
        },
    }
}

/// Reads the value of `PVM_PROXY` (`None` where it is not set).
pub fn proxy_choice(var: Option<&str>) -> (r: ProxyChoice)
    ensures
        ({
            let c = proxy_choice_of(
                match var {
                    Some(v) => Some(v@),
                    None => None,
                },
            );
            match r {
                ProxyChoice::Direct => c.0,
                ProxyChoice::System => !c.0 && c.1,
                ProxyChoice::Custom(p) => !c.0 && !c.1 && p@ == c.2,
            }
        }),
{
    match var {
        None => ProxyChoice::Direct,
        Some(v) => {
            let t = trim_str(v);
            if t.unicode_len() == 0 || eq_ignore_case_str(t, "direct") {
                ProxyChoice::Direct
            } else if eq_ignore_case_str(t, "system") {
                ProxyChoice::System
            } else {
                ProxyChoice::Custom(normalize(t))
            }
        },
    }
}

/// The environment variables read for the system proxy, in order.
pub fn proxy_env_keys() -> (r: Vec<&'static str>)
    ensures
        views(r@) == seq![
            "HTTPS_PROXY"@,
            "https_proxy"@,
            "ALL_PROXY"@,
            "all_proxy"@,
            "HTTP_PROXY"@,
            "http_proxy"@,
        ],
{
    let v = vec!["HTTPS_PROXY", "https_proxy", "ALL_PROXY", "all_proxy", "HTTP_PROXY", "http_proxy"];
    assert(views(v@) =~= seq![
        "HTTPS_PROXY"@,
        "https_proxy"@,
        "ALL_PROXY"@,
        "all_proxy"@,
        "HTTP_PROXY"@,
        "http_proxy"@,
    ]);
    v
}

pub open spec fn opt_sv(o: Option<String>) -> Option<Seq<char>> {
    match o {
        Some(s) => Some(s@),
        None => None,
    }
}

pub open spec fn opt_views(v: Seq<Option<String>>) -> Seq<Option<Seq<char>>> {
    v.map_values(|o: Option<String>| match o {
        Some(s) => Some(s@),
        None => None,
    })
}

/// The first set and nonempty (once trimmed) of the environment values,
/// normalized; else the Windows proxy.
pub open spec fn system_proxy_of(env: Seq<Option<Seq<char>>>, win: Option<Seq<char>>) -> Option<
    Seq<char>,
>
    decreases env.len(),
{
    if env.len() == 0 {
        win
    } else {
        match env[0] {
            Some(v) => if trim(v).len() > 0 {
                Some(normalize_of(trim(v)))
            } else {
                system_proxy_of(env.drop_first(), win)
            },
            None => system_proxy_of(env.drop_first(), win),
        }
    }
}

/// The system proxy from the values of [`proxy_env_keys`] (in that order)
/// and the proxy that Windows' Internet settings name.
pub fn system_proxy(env: &Vec<Option<String>>, win: Option<String>) -> (r: Option<String>)
    ensures
        match r {
            Some(p) => system_proxy_of(opt_views(env@), opt_sv(win)) == Some(p@),
            None => system_proxy_of(opt_views(env@), opt_sv(win)) is None,
        },
{
    let ghost wv = opt_sv(win);
    let mut i: usize = 0;
    assert(opt_views(env@).skip(0) =~= opt_views(env@));
    while i < env.len()
        invariant
            wv == opt_sv(win),
            i <= env@.len(),
            system_proxy_of(opt_views(env@).skip(i as int), wv) == system_proxy_of(opt_views(env@), wv),
        decreases env@.len() - i,
    {
        proof {
            assert(opt_views(env@).skip(i as int).drop_first() =~= opt_views(env@).skip(i + 1));
            assert(opt_views(env@).skip(i as int)[0] == opt_views(env@)[i as int]);
        }
        match &env[i] {
            Some(v) => {
                let t = trim_str(v.as_str());
                if t.unicode_len() > 0 {
                    proof {
                        let sk = opt_views(env@).skip(i as int);
                        assert(sk.len() > 0);
                        assert(sk[0] == Some(v@));
                        assert(system_proxy_of(sk, wv) == Some(normalize_of(trim(v@))));
                    }
                    return Some(normalize(t));
                }
            },
            None => {},
        }
        i = i + 1;
    }
    win
}

/// The first of `parts` that starts with `https=` or `http=`, without it.
pub open spec fn pick_server_of(parts: Seq<Seq<char>>) -> Option<Seq<char>>
    decreases parts.len(),
{
    if parts.len() == 0 {
        None
    } else if starts_with(parts[0], "https="@) {
        Some(parts[0].subrange(6, parts[0].len() as int))
    } else if starts_with(parts[0], "http="@) {
        Some(parts[0].subrange(5, parts[0].len() as int))
    } else {
        pick_server_of(parts.drop_first())
    }
}

/// The proxy of Windows' Internet settings: none where it is switched off
/// or empty; a `ProxyServer` of the form `http=..;https=..` gives the
/// first `https=` or `http=` entry.
pub open spec fn win_proxy_of(enable: u32, server: Seq<char>) -> Option<Seq<char>> {
    let s = trim(server);
    if enable == 0 || s.len() == 0 {
        None
    } else if contains_char(s, '=') {
        Some(
            normalize_of(
                match pick_server_of(split_char(s, ';')) {
                    Some(p) => p,
                    None => s,
                },
            ),
        )
    } else {
        Some(normalize_of(s))
    }
}

pub fn win_proxy(enable: u32, server: &str) -> (r: Option<String>)
    ensures
        match r {
            Some(p) => win_proxy_of(enable, server@) == Some(p@),
            None => win_proxy_of(enable, server@) is None,
        },
{
    proof {
        reveal_strlit("https=");
        reveal_strlit("http=");
    }
    let s = trim_str(server);
    if enable == 0 || s.unicode_len() == 0 {
        return None;
    }
    proof {
        lemma_find_from(s@, '=', 0);
    }
    if find_char(s, '=').is_none() {
        return Some(normalize(s));
    }
    assert(contains_char(s@, '='));
    let parts = split_str(s, ';');
    let ghost pv = split_char(s@, ';');
    let mut i: usize = 0;
    assert(pv.skip(0) =~= pv);
    while i < parts.len()
        invariant
            views(parts@) == pv,
            pv == split_char(s@, ';'),
            s@ == trim(server@),
            enable != 0,
            s@.len() > 0,
            contains_char(s@, '='),
            i <= parts@.len(),
            pick_server_of(pv.skip(i as int)) == pick_server_of(pv),
        decreases parts@.len() - i,
    {
        let p = parts[i];
        proof {
            reveal_strlit("https=");
            reveal_strlit("http=");
            assert(p@ == pv[i as int]);
            assert(pv.skip(i as int)[0] == pv[i as int]);
            assert(pv.skip(i as int).drop_first() =~= pv.skip(i + 1));
        }
        let n = p.unicode_len();
        if starts_with_str(p, "https=") {
            return Some(normalize(p.substring_char(6, n)));
        }
        if starts_with_str(p, "http=") {
            return Some(normalize(p.substring_char(5, n)));
        }
        i = i + 1;
    }
    assert(pv.skip(parts@.len() as int) =~= Seq::<Seq<char>>::empty());
    Some(normalize(s))
}


/// A failed request worth retrying: a gateway error (502, 503, 504) or a
/// timeout.
pub open spec fn retriable_of(msg: Seq<char>) -> bool {
    has_sub(msg, "502"@) || has_sub(msg, "503"@) || has_sub(msg, "504"@) || has_sub(
        lowercase_of(msg),
        "timeout"@,
    ) || has_sub(lowercase_of(msg), "timed out"@)
}

pub fn retriable(msg: &str) -> (r: bool)
    ensures
        r == retriable_of(msg@),
{
    let lower = to_lower(msg);
    contains_str(msg, "502") || contains_str(msg, "503") || contains_str(msg, "504")
        || contains_str(lower.as_str(), "timeout") || contains_str(lower.as_str(), "timed out")
}

/// What to do after a failed request.
#[derive(PartialEq, Eq, Debug)]
pub enum FetchStep {
    /// The service refuses for now: report it.
    RateLimited,
    /// Wait this many milliseconds and try again.
    Retry(u64),
    /// Stop and report the failure.
    GiveUp,
}

} // verus!
