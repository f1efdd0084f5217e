//! `shoka doctor`: what the program makes of its surroundings.
use vstd::prelude::*;
use vstd::string::*;

use crate::cache::{Cache, RepoCacheView};
use crate::commands::list::vcs_name;
use crate::config::{CompiledRoute, Protocol, ResolvedConfig, VcsDefault};
use crate::paths::ShokaPaths;
use crate::state::Shelf;
use crate::text::{
    decimal, decimal_of, has, is_number, join, joined, law_decimal_reads_back, number_read,
    occurs_at, opt_text, texts,
};

verus! {

/// The name of a protocol in reports.
pub open spec fn protocol_name(p: Protocol) -> Seq<char> {
    match p {
        Protocol::Https => "Https"@,
        Protocol::Ssh => "Ssh"@,
    }
}

fn protocol_label(p: Protocol) -> (r: &'static str)
    ensures
        r@ == protocol_name(p),
{
    match p {
        Protocol::Https => "Https",
        Protocol::Ssh => "Ssh",
    }
}

fn vcs_label(v: VcsDefault) -> (r: &'static str)
    ensures
        r@ == vcs_name(v),
{
    match v {
        VcsDefault::Auto => "Auto",
        VcsDefault::Git => "Git",
        VcsDefault::Jj => "Jj",
    }
}

/// One setting of a route, where it has it.
pub open spec fn setting(label: Seq<char>, value: Option<Seq<char>>) -> Seq<Seq<char>> {
    match value {
        Some(v) => seq![label + v],
        None => Seq::empty(),
    }
}

/// What a route sets.
pub open spec fn settings_of(route: CompiledRoute) -> Seq<Seq<char>> {
    setting("root="@, opt_text(route.raw.root)) + setting("layout="@, opt_text(route.raw.layout))
        + setting(
        "vcs="@,
        match route.raw.default_vcs {
            Some(v) => Some(vcs_name(v)),
            None => None,
        },
    ) + setting(
        "protocol="@,
        match route.raw.default_protocol {
            Some(p) => Some(protocol_name(p)),
            None => None,
        },
    )
}

/// The line of a route: its position and pattern, and what it sets.
pub open spec fn route_text(index: nat, route: CompiledRoute) -> Seq<char> {
    let head = "["@ + decimal(index) + "] "@ + route.raw.pattern@;
    let settings = joined(settings_of(route), ", "@);
    if settings.len() == 0 {
        head
    } else {
        head + " → "@ + settings
    }
}

/// The line of a route.
pub fn route_line(index: usize, route: &CompiledRoute) -> (r: String)
    ensures
        r@ == route_text(index as nat, *route),
{
    let mut settings: Vec<String> = Vec::new();
    if let Some(v) = &route.raw.root {
        settings.push("root=".to_owned().concat(v.as_str()));
    }
    assert(texts(settings@) =~= setting("root="@, opt_text(route.raw.root)));
    if let Some(v) = &route.raw.layout {
        settings.push("layout=".to_owned().concat(v.as_str()));
    }
    assert(texts(settings@) =~= setting("root="@, opt_text(route.raw.root)) + setting(
        "layout="@,
        opt_text(route.raw.layout),
    ));
    let ghost two = texts(settings@);
    if let Some(v) = route.raw.default_vcs {
        settings.push("vcs=".to_owned().concat(vcs_label(v)));
    }
    assert(texts(settings@) =~= two + setting(
        "vcs="@,
        match route.raw.default_vcs {
            Some(v) => Some(vcs_name(v)),
            None => None,
        },
    ));
    let ghost three = texts(settings@);
    if let Some(p) = route.raw.default_protocol {
        settings.push("protocol=".to_owned().concat(protocol_label(p)));
    }
    assert(texts(settings@) =~= three + setting(
        "protocol="@,
        match route.raw.default_protocol {
            Some(p) => Some(protocol_name(p)),
            None => None,
        },
    ));
    let head = "[".to_owned().concat(decimal_of(index as u64).as_str()).concat("] ").concat(
        route.raw.pattern.as_str(),
    );
    let text = join(&settings, ", ");
    if text.as_str().is_empty() {
        head
    } else {
        head.concat(" → ").concat(text.as_str())
    }
}

/// The lines of the paths in use.
pub fn path_lines(p: &ShokaPaths) -> (r: Vec<String>)
    ensures
        texts(r@) == seq![
            "  config file : "@ + p.config_file_text(),
            "  config dir  : "@ + p.config_dir_text(),
            "  state dir   : "@ + p.state_dir_text(),
            "  state file  : "@ + p.state_file_text(),
            "  cache dir   : "@ + p.cache_dir_text(),
            "  cache file  : "@ + p.cache_file_text(),
        ],
{
    let r = vec![
        "  config file : ".to_owned().concat(p.config_file()),
        "  config dir  : ".to_owned().concat(p.config_dir()),
        "  state dir   : ".to_owned().concat(p.state_dir()),
        "  state file  : ".to_owned().concat(p.state_file().as_str()),
        "  cache dir   : ".to_owned().concat(p.cache_dir()),
        "  cache file  : ".to_owned().concat(p.cache_file().as_str()),
    ];
    assert(texts(r@) =~= seq![
        "  config file : "@ + p.config_file_text(),
        "  config dir  : "@ + p.config_dir_text(),
        "  state dir   : "@ + p.state_dir_text(),
        "  state file  : "@ + p.state_file_text(),
        "  cache dir   : "@ + p.cache_dir_text(),
        "  cache file  : "@ + p.cache_file_text(),
    ]);
    r
}

/// The lines of the settings in force.
pub fn config_lines(r: &ResolvedConfig) -> (lines: Vec<String>)
    ensures
        texts(lines@) == seq![
            "  root           : "@ + r.root@,
            "  layout         : "@ + r.layout@,
            "  default vcs    : "@ + vcs_name(r.default_vcs),
            "  default proto  : "@ + protocol_name(r.default_protocol),
            "  default host   : "@ + r.default_host@,
            "  exec concur.   : "@ + decimal(r.exec_concurrency as nat),
        ],
{
    let lines = vec![
        "  root           : ".to_owned().concat(r.root.as_str()),
        "  layout         : ".to_owned().concat(r.layout.as_str()),
        "  default vcs    : ".to_owned().concat(vcs_label(r.default_vcs)),
        "  default proto  : ".to_owned().concat(protocol_label(r.default_protocol)),
        "  default host   : ".to_owned().concat(r.default_host.as_str()),
        "  exec concur.   : ".to_owned().concat(decimal_of(r.exec_concurrency as u64).as_str()),
    ];
    assert(texts(lines@) =~= seq![
        "  root           : "@ + r.root@,
        "  layout         : "@ + r.layout@,
        "  default vcs    : "@ + vcs_name(r.default_vcs),
        "  default proto  : "@ + protocol_name(r.default_protocol),
        "  default host   : "@ + r.default_host@,
        "  exec concur.   : "@ + decimal(r.exec_concurrency as nat),
    ]);
    lines
}

/// The line of the shelf; none when it is empty.
pub fn shelf_line(shelf: &Shelf) -> (r: Option<String>)
    ensures
        opt_text(r) == (if shelf@.rows.len() == 0 {
            None
        } else {
            Some(
                decimal(shelf@.rows.len()) + " repos on the shelf (schema v"@ + decimal(
                    shelf@.version as nat,
                ) + ")"@,
            )
        }),
{
    if shelf.is_empty() {
        None
    } else {
        Some(
            decimal_of(shelf.len() as u64).concat(" repos on the shelf (schema v").concat(
                decimal_of(shelf.version as u64).as_str(),
            ).concat(")"),
        )
    }
}

/// The earliest and the latest time at which a row was refreshed; the greatest
/// and the least value where none was.
pub open spec fn refresh_span(rows: Seq<RepoCacheView>) -> (u64, u64)
    decreases rows.len(),
{
    if rows.len() == 0 {
        (u64::MAX, 0)
    } else {
        let (oldest, newest) = refresh_span(rows.drop_last());
        match rows.last().last_refreshed {
            Some(ts) => (
                if ts < oldest {
                    ts
                } else {
                    oldest
                },
                if ts > newest {
                    ts
                } else {
                    newest
                },
            ),
            None => (oldest, newest),
        }
    }
}

/// The seconds from `ts` to `now`, none when `ts` lies ahead.
pub open spec fn age(now: u64, ts: u64) -> nat {
    if now >= ts {
        (now - ts) as nat
    } else {
        0
    }
}

/// What is said of a cache that holds rows.
pub open spec fn cache_text(rows: Seq<RepoCacheView>, version: u32, now: u64) -> Seq<char> {
    let (oldest, newest) = refresh_span(rows);
    decimal(rows.len()) + " entries (schema v"@ + decimal(version as nat) + ")"@ + (if newest > 0 {
        " — freshest "@ + decimal(age(now, newest)) + "s ago, oldest "@ + decimal(
            age(now, oldest),
        ) + "s ago"@
    } else {
        " (none refreshed yet)"@
    })
}

/// The line of the cache; none when it is empty.
pub fn cache_line(cache: &Cache, now: u64) -> (r: Option<String>)
    ensures
        opt_text(r) == (if cache@.rows.len() == 0 {
            None
        } else {
            Some(cache_text(cache@.rows, cache@.version, now))
        }),
{
    if cache.is_empty() {
        return None;
    }
    let ghost rows = cache@.rows;
    let mut oldest: u64 = u64::MAX;
    let mut newest: u64 = 0;
    let mut i: usize = 0;
    assert(rows.take(0) =~= Seq::<RepoCacheView>::empty());
    while i < cache.repos.len()
        invariant
            rows == cache@.rows,
            i <= cache.repos@.len(),
            refresh_span(rows.take(i as int)) == (oldest, newest),
        decreases cache.repos@.len() - i,
    {
        assert(rows.take(i + 1).drop_last() =~= rows.take(i as int));
        assert(rows.take(i + 1).last() == cache.repos@[i as int]@);
        if let Some(ts) = cache.repos[i].last_refreshed {
            if ts < oldest {
                oldest = ts;
            }
            if ts > newest {
                newest = ts;
            }
        }
        i = i + 1;
    }
    assert(rows.take(i as int) =~= rows);
    let head = decimal_of(cache.len() as u64).concat(" entries (schema v").concat(
        decimal_of(cache.version as u64).as_str(),
    ).concat(")");
    let tail = if newest > 0 {
        " — freshest ".to_owned().concat(decimal_of(now.saturating_sub(newest)).as_str()).concat(
            "s ago, oldest ",
        ).concat(decimal_of(now.saturating_sub(oldest)).as_str()).concat("s ago")
    } else {
        " (none refreshed yet)".to_owned()
    };
    Some(head.concat(tail.as_str()))
}

/// The two protocols have names of their own.
pub proof fn law_protocol_names_differ(a: Protocol, b: Protocol)
    ensures
        (protocol_name(a) == protocol_name(b)) == (a == b),
        protocol_name(Protocol::Https) == seq!['H', 't', 't', 'p', 's'],
        protocol_name(Protocol::Ssh) == seq!['S', 's', 'h'],
{
    reveal_strlit("Https");
    reveal_strlit("Ssh");
    assert("Https"@.len() != "Ssh"@.len());
    assert("Https"@ =~= seq!['H', 't', 't', 'p', 's']);
    assert("Ssh"@ =~= seq!['S', 's', 'h']);
}

/// A route's settings are told exactly as far as it has them, one entry for each: the
/// root and the layout first, the version control system and the protocol last.
pub proof fn law_settings_of_a_route(route: CompiledRoute, v: Seq<char>)
    ensures
        settings_of(route).contains("root="@ + v) == (opt_text(route.raw.root) == Some(v)),
        settings_of(route).contains("layout="@ + v) == (opt_text(route.raw.layout) == Some(v)),
        settings_of(route).contains("vcs="@ + v) == (route.raw.default_vcs is Some && v == vcs_name(
            route.raw.default_vcs->0,
        )),
        settings_of(route).contains("protocol="@ + v) == (route.raw.default_protocol is Some && v
            == protocol_name(route.raw.default_protocol->0)),
        route.raw.root is Some ==> settings_of(route)[0] == "root="@ + route.raw.root->0@,
        route.raw.default_protocol is Some ==> settings_of(route).last() == "protocol="@
            + protocol_name(route.raw.default_protocol->0),
        route.raw.root is None && route.raw.layout is Some ==> settings_of(route)[0] == "layout="@
            + route.raw.layout->0@,
        route.raw.default_protocol is None && route.raw.default_vcs is Some ==> settings_of(
            route,
        ).last() == "vcs="@ + vcs_name(route.raw.default_vcs->0),
{
    reveal_strlit("root=");
    reveal_strlit("layout=");
    reveal_strlit("vcs=");
    reveal_strlit("protocol=");
    assert("root="@[0] == 'r' && "layout="@[0] == 'l' && "vcs="@[0] == 'v' && "protocol="@[0]
        == 'p');
    let all = settings_of(route);
    let a: int = if route.raw.root is Some {
        1
    } else {
        0
    };
    let b: int = if route.raw.layout is Some {
        1
    } else {
        0
    };
    let c: int = if route.raw.default_vcs is Some {
        1
    } else {
        0
    };
    let d: int = if route.raw.default_protocol is Some {
        1
    } else {
        0
    };
    assert(all.len() == a + b + c + d);
    assert(a == 1 ==> all[0] == "root="@ + route.raw.root->0@);
    assert(b == 1 ==> all[a] == "layout="@ + route.raw.layout->0@);
    assert(c == 1 ==> all[a + b] == "vcs="@ + vcs_name(route.raw.default_vcs->0));
    assert(d == 1 ==> all[a + b + c] == "protocol="@ + protocol_name(
        route.raw.default_protocol->0,
    ));
    assert(("root="@ + v)[0] == 'r' && ("layout="@ + v)[0] == 'l' && ("vcs="@ + v)[0] == 'v' && (
    "protocol="@ + v)[0] == 'p');
    assert(("root="@ + v).skip(5) =~= v && ("layout="@ + v).skip(7) =~= v && ("vcs="@ + v).skip(4)
        =~= v && ("protocol="@ + v).skip(9) =~= v);
    if a == 1 {
        let x = route.raw.root->0@;
        assert(all[0][0] == 'r' && all[0].skip(5) =~= x);
    }
    if b == 1 {
        let x = route.raw.layout->0@;
        assert(all[a][0] == 'l' && all[a].skip(7) =~= x);
    }
    if c == 1 {
        let x = vcs_name(route.raw.default_vcs->0);
        assert(all[a + b][0] == 'v' && all[a + b].skip(4) =~= x);
    }
    if d == 1 {
        let x = protocol_name(route.raw.default_protocol->0);
        assert(all[a + b + c][0] == 'p' && all[a + b + c].skip(9) =~= x);
    }
}

/// The line of a route begins with its number and its pattern, and ends with its
/// settings, with a comma between each two, where it has any.
pub proof fn law_line_of_a_route(index: nat, route: CompiledRoute)
    ensures
        ({
            let line = route_text(index, route);
            let n = decimal(index).len() as int;
            let settings = joined(settings_of(route), ", "@);
            &&& line[0] == '['
            &&& is_number(line.subrange(1, n + 1))
            &&& number_read(line.subrange(1, n + 1)) == index
            &&& occurs_at(line, route.raw.pattern@, n + 3)
            &&& occurs_at(line, settings, line.len() - settings.len())
            &&& settings.len() == 0 ==> line.len() == n + 3 + route.raw.pattern@.len()
        }),
{
    reveal_strlit("[");
    reveal_strlit("] ");
    reveal_strlit(" → ");
    let line = route_text(index, route);
    let n = decimal(index).len() as int;
    let settings = joined(settings_of(route), ", "@);
    let pattern = route.raw.pattern@;
    law_decimal_reads_back(index);
    assert(line[0] == "["@[0]);
    assert(line.subrange(1, n + 1) =~= decimal(index));
    assert(line.subrange(n + 3, n + 3 + pattern.len()) =~= pattern);
    let m = line.len() - settings.len();
    assert(line.subrange(m, line.len() as int) =~= settings);
}

/// No row was refreshed before the earliest time or after the latest, and each is
/// that of some row, unless none was refreshed at all.
pub proof fn law_refresh_span(rows: Seq<RepoCacheView>)
    ensures
        ({
            let (oldest, newest) = refresh_span(rows);
            &&& forall|i: int|
                0 <= i < rows.len() && (#[trigger] rows[i]).last_refreshed is Some ==> oldest
                    <= rows[i].last_refreshed->0 <= newest
            &&& (exists|i: int| 0 <= i < rows.len() && (#[trigger] rows[i]).last_refreshed is Some)
                ==> {
                &&& exists|i: int|
                    0 <= i < rows.len() && (#[trigger] rows[i]).last_refreshed == Some(oldest)
                &&& exists|i: int|
                    0 <= i < rows.len() && (#[trigger] rows[i]).last_refreshed == Some(newest)
            }
            &&& !(exists|i: int|
                0 <= i < rows.len() && (#[trigger] rows[i]).last_refreshed is Some) ==> oldest
                == u64::MAX && newest == 0
        }),
    decreases rows.len(),
{
    if rows.len() > 0 {
        let front = rows.drop_last();
        law_refresh_span(front);
        let (o, n) = refresh_span(front);
        let (oldest, newest) = refresh_span(rows);
        assert forall|i: int|
            0 <= i < rows.len() && (#[trigger] rows[i]).last_refreshed is Some implies oldest
            <= rows[i].last_refreshed->0 <= newest by {
            if i < front.len() {
                assert(front[i] == rows[i]);
            }
        }
        if exists|i: int| 0 <= i < front.len() && (#[trigger] front[i]).last_refreshed is Some {
            let a = choose|i: int|
                0 <= i < front.len() && (#[trigger] front[i]).last_refreshed == Some(o);
            let b = choose|i: int|
                0 <= i < front.len() && (#[trigger] front[i]).last_refreshed == Some(n);
            assert(rows[a] == front[a] && rows[b] == front[b]);
            assert(rows[rows.len() - 1] == rows.last());
        } else if exists|i: int| 0 <= i < rows.len() && (#[trigger] rows[i]).last_refreshed is Some {
            let a = choose|i: int|
                0 <= i < rows.len() && (#[trigger] rows[i]).last_refreshed is Some;
            if a < front.len() {
                assert(front[a] == rows[a]);
            }
            assert(rows[rows.len() - 1].last_refreshed is Some);
            let ts = rows.last().last_refreshed->0;
            assert(oldest == ts && newest == ts);
        } else {
            assert(rows[rows.len() - 1].last_refreshed is None);
        }
    }
}

/// The age of a time is how long ago it was; one that lies ahead is new.
pub proof fn law_age(now: u64, ts: u64)
    ensures
        ts <= now ==> ts + age(now, ts) == now,
        ts > now ==> age(now, ts) == 0,
{
}

/// The line of the cache tells how many rows there are, and the ages of the row
/// refreshed last and of the one refreshed first, where one was refreshed after the
/// epoch.
pub proof fn law_line_of_the_cache(rows: Seq<RepoCacheView>, version: u32, now: u64)
    ensures
        ({
            let line = cache_text(rows, version, now);
            let (oldest, newest) = refresh_span(rows);
            &&& occurs_at(line, decimal(rows.len()), 0)
            &&& has(line, decimal(version as nat))
            &&& newest > 0 ==> {
                let fresh = " — freshest "@ + decimal(age(now, newest)) + "s ago, oldest "@
                    + decimal(age(now, oldest)) + "s ago"@;
                occurs_at(line, fresh, line.len() - fresh.len())
            }
            &&& newest == 0 ==> occurs_at(
                line,
                " (none refreshed yet)"@,
                line.len() - " (none refreshed yet)"@.len(),
            )
        }),
{
    reveal_strlit(" entries (schema v");
    let line = cache_text(rows, version, now);
    let (oldest, newest) = refresh_span(rows);
    let a = decimal(rows.len());
    let b = decimal(version as nat);
    assert(line.subrange(0, a.len() as int) =~= a);
    let k = a.len() as int + 18;
    assert(line.subrange(k, k + b.len()) =~= b);
    assert(occurs_at(line, b, k));
    let tail = if newest > 0 {
        " — freshest "@ + decimal(age(now, newest)) + "s ago, oldest "@ + decimal(age(now, oldest))
            + "s ago"@
    } else {
        " (none refreshed yet)"@
    };
    let m = line.len() - tail.len();
    assert(line.subrange(m, m + tail.len()) =~= tail);
}

} // verus!
