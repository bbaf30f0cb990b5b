//! Settings: the exported configuration document, the key/value form the
//! settings are stored in, and the renumbering of servers on import.

use crate::state::{AppConfig, AppRule, DnsServer};
use crate::text::{decimal, lemma_decimal_digits, parse_u16, parse_u16_spec, push_decimal, str_eq};
use std::collections::HashMap;
use vstd::prelude::*;

verus! {

broadcast use vstd::std_specs::hash::group_hash_axioms;

/// The version of the configuration document this library writes and reads.
pub const CONFIG_VERSION: &'static str = "1.0";

/// An exported configuration: settings, servers and rules.
#[derive(Debug, Clone)]
pub struct DnsFlowConfig {
    pub version: String,
    pub app_config: AppConfig,
    pub dns_servers: Vec<DnsServer>,
    pub app_rules: Vec<AppRule>,
}

impl DnsFlowConfig {
    /// A configuration document of the current version.
    pub fn new(app_config: AppConfig, dns_servers: Vec<DnsServer>, app_rules: Vec<AppRule>) -> (r:
        Self)
        ensures
            r.version@ == CONFIG_VERSION@,
            r.app_config == app_config,
            r.dns_servers@ == dns_servers@,
            r.app_rules@ == app_rules@,
    {
        DnsFlowConfig { version: CONFIG_VERSION.to_owned(), app_config, dns_servers, app_rules }
    }
}

/// Accepts a configuration document of the current version only.
pub fn check_config_version(version: &str) -> (r: Result<(), String>)
    ensures
        match r {
            Ok(_) => version@ == CONFIG_VERSION@,
            Err(msg) => version@ != CONFIG_VERSION@ && msg@ == "Unsupported config version: "@
                + version@,
        },
{
    if str_eq(version, CONFIG_VERSION) {
        Ok(())
    } else {
        let mut msg = "Unsupported config version: ".to_owned();
        msg.append(version);
        Err(msg)
    }
}

/// The settings in effect when nothing is stored.
pub open spec fn default_config() -> AppConfig {
    AppConfig { proxy_port: 5353, log_enabled: true, auto_start: false, debug: false }
}

/// The settings after applying one stored (key, value) pair; unknown keys
/// are ignored and a port that does not parse falls back to 5353.
pub open spec fn apply_setting(c: AppConfig, key: Seq<char>, value: Seq<char>) -> AppConfig {
    if key == "proxy_port"@ {
        AppConfig {
            proxy_port: match parse_u16_spec(value) {
                Some(p) => p,
                None => 5353,
            },
            ..c
        }
    } else if key == "log_enabled"@ {
        AppConfig { log_enabled: value == "true"@, ..c }
    } else if key == "auto_start"@ {
        AppConfig { auto_start: value == "true"@, ..c }
    } else if key == "debug"@ {
        AppConfig { debug: value == "true"@, ..c }
    } else {
        c
    }
}

/// The settings a list of stored (key, value) rows describes, read in order.
pub open spec fn config_from(rows: Seq<(Seq<char>, Seq<char>)>) -> AppConfig
    decreases rows.len(),
{
    if rows.len() == 0 {
        default_config()
    } else {
        apply_setting(config_from(rows.drop_last()), rows.last().0, rows.last().1)
    }
}

pub open spec fn row_views(rows: Seq<(String, String)>) -> Seq<(Seq<char>, Seq<char>)> {
    rows.map_values(|r: (String, String)| (r.0@, r.1@))
}

/// Reads the settings from stored (key, value) rows.
pub fn config_from_rows(rows: &Vec<(String, String)>) -> (c: AppConfig)
    ensures
        c == config_from(row_views(rows@)),
{
    let mut c = AppConfig { proxy_port: 5353, log_enabled: true, auto_start: false, debug: false };
    let mut i: usize = 0;
    while i < rows.len()
        invariant
            i <= rows@.len(),
            c == config_from(row_views(rows@).take(i as int)),
        decreases rows@.len() - i,
    {
        assert(row_views(rows@).take(i + 1).drop_last() =~= row_views(rows@).take(i as int));
        let key = rows[i].0.as_str();
        let value = rows[i].1.as_str();
        if str_eq(key, "proxy_port") {
            c.proxy_port = match parse_u16(value) {
                Some(p) => p,
                None => 5353,
            };
        } else if str_eq(key, "log_enabled") {
            c.log_enabled = str_eq(value, "true");
        } else if str_eq(key, "auto_start") {
            c.auto_start = str_eq(value, "true");
        } else if str_eq(key, "debug") {
            c.debug = str_eq(value, "true");
        }
        i = i + 1;
    }
    assert(row_views(rows@).take(rows@.len() as int) =~= row_views(rows@));
    c
}

pub open spec fn bool_text(b: bool) -> Seq<char> {
    if b {
        "true"@
    } else {
        "false"@
    }
}

/// The stored (key, value) rows of a settings record.
pub open spec fn config_rows(c: AppConfig) -> Seq<(Seq<char>, Seq<char>)> {
    seq![
        ("proxy_port"@, decimal(c.proxy_port as nat)),
        ("log_enabled"@, bool_text(c.log_enabled)),
        ("auto_start"@, bool_text(c.auto_start)),
        ("debug"@, bool_text(c.debug)),
    ]
}

fn bool_string(b: bool) -> (r: String)
    ensures
        r@ == bool_text(b),
{
    if b {
        "true".to_owned()
    } else {
        "false".to_owned()
    }
}

/// The rows a settings record is stored as.
pub fn config_to_rows(c: &AppConfig) -> (rows: Vec<(String, String)>)
    ensures
        row_views(rows@) == config_rows(*c),
{
    let mut port = String::new();
    push_decimal(&mut port, c.proxy_port as u64);
    let mut rows: Vec<(String, String)> = Vec::new();
    rows.push(("proxy_port".to_owned(), port));
    rows.push(("log_enabled".to_owned(), bool_string(c.log_enabled)));
    rows.push(("auto_start".to_owned(), bool_string(c.auto_start)));
    rows.push(("debug".to_owned(), bool_string(c.debug)));
    assert(row_views(rows@) =~= config_rows(*c));
    rows
}

/// Storing settings and reading them back gives the same settings.
pub proof fn lemma_config_rows_round_trip(c: AppConfig)
    ensures
        config_from(config_rows(c)) == c,
{
    reveal_strlit("proxy_port");
    reveal_strlit("log_enabled");
    reveal_strlit("auto_start");
    reveal_strlit("debug");
    reveal_strlit("true");
    reveal_strlit("false");
    lemma_decimal_digits(c.proxy_port as nat);
    let rows = config_rows(c);
    let d = decimal(c.proxy_port as nat);
    assert(d[0] != '+');
    assert(parse_u16_spec(d) == Some(c.proxy_port));
    assert(rows.drop_last().drop_last().drop_last().drop_last() =~= Seq::<(Seq<char>, Seq<char>)>::empty());
    assert(rows.drop_last().drop_last().drop_last() =~= seq![rows[0]]);
    assert(rows.drop_last().drop_last() =~= seq![rows[0], rows[1]]);
    assert(rows.drop_last() =~= seq![rows[0], rows[1], rows[2]]);
    let s1 = rows.drop_last().drop_last().drop_last();
    assert(config_from(s1.drop_last()) == default_config());
    assert(s1.last() == rows[0]);
    let c1 = config_from(s1);
    assert(c1 == apply_setting(default_config(), rows[0].0, rows[0].1));
    assert(c1.proxy_port == c.proxy_port);
    let c2 = config_from(rows.drop_last().drop_last());
    assert(c2 == apply_setting(c1, rows[1].0, rows[1].1));
    let c3 = config_from(rows.drop_last());
    assert(c3 == apply_setting(c2, rows[2].0, rows[2].1));
    assert(config_from(rows) == apply_setting(c3, rows[3].0, rows[3].1));
    assert("proxy_port"@[0] == 'p' && "log_enabled"@[0] == 'l' && "auto_start"@[0] == 'a');
    assert("debug"@[0] == 'd' && "false"@[0] == 'f' && "true"@[0] == 't');
}

/// Whether two settings records agree on the setting stored under `key`.
pub open spec fn agree_on(a: AppConfig, b: AppConfig, key: Seq<char>) -> bool {
    if key == "proxy_port"@ {
        a.proxy_port == b.proxy_port
    } else if key == "log_enabled"@ {
        a.log_enabled == b.log_enabled
    } else if key == "auto_start"@ {
        a.auto_start == b.auto_start
    } else if key == "debug"@ {
        a.debug == b.debug
    } else {
        true
    }
}

/// No key occurs twice among the rows.
pub open spec fn keys_unique(rows: Seq<(Seq<char>, Seq<char>)>) -> bool {
    forall|i: int, j: int| 0 <= i < j < rows.len() ==> #[trigger] rows[i].0 != #[trigger] rows[j].0
}

/// Where a key occurs once, the setting it names is read from its row
/// alone, whatever the other rows and their order.
proof fn lemma_setting_from_its_row(rows: Seq<(Seq<char>, Seq<char>)>, j: int)
    requires
        keys_unique(rows),
        0 <= j < rows.len(),
    ensures
        agree_on(config_from(rows), apply_setting(default_config(), rows[j].0, rows[j].1), rows[j].0),
    decreases rows.len(),
{
    let last = rows.len() - 1;
    if j < last {
        let before = rows.drop_last();
        assert(before[j] == rows[j]);
        assert forall|a: int, b: int| 0 <= a < b < before.len() implies #[trigger] before[a].0
            != #[trigger] before[b].0 by {
            assert(before[a] == rows[a] && before[b] == rows[b]);
        }
        lemma_setting_from_its_row(before, j);
        assert(rows[j].0 != rows[last].0);
    }
}

/// What a read gives back of a write: once the four settings rows of `c`
/// are stored, the settings read are `c`, whatever other keys the table
/// holds and in whatever order its rows come, as long as no key occurs twice.
pub proof fn lemma_stored_config_reads_back(c: AppConfig, rows: Seq<(Seq<char>, Seq<char>)>)
    requires
        keys_unique(rows),
        forall|k: int| 0 <= k < 4 ==> rows.contains(#[trigger] config_rows(c)[k]),
    ensures
        config_from(rows) == c,
{
    reveal_strlit("proxy_port");
    reveal_strlit("log_enabled");
    reveal_strlit("auto_start");
    reveal_strlit("debug");
    reveal_strlit("true");
    reveal_strlit("false");
    assert("proxy_port"@[0] == 'p' && "log_enabled"@[0] == 'l' && "auto_start"@[0] == 'a');
    assert("debug"@[0] == 'd' && "false"@[0] == 'f' && "true"@[0] == 't');
    lemma_decimal_digits(c.proxy_port as nat);
    let d = decimal(c.proxy_port as nat);
    assert(d[0] != '+');
    assert(parse_u16_spec(d) == Some(c.proxy_port));
    let want = config_rows(c);
    let got = config_from(rows);
    assert(rows.contains(want[0]));
    let j0 = choose|j: int| 0 <= j < rows.len() && rows[j] == want[0];
    lemma_setting_from_its_row(rows, j0);
    assert(got.proxy_port == c.proxy_port);
    assert(rows.contains(want[1]));
    let j1 = choose|j: int| 0 <= j < rows.len() && rows[j] == want[1];
    lemma_setting_from_its_row(rows, j1);
    assert(got.log_enabled == c.log_enabled);
    assert(rows.contains(want[2]));
    let j2 = choose|j: int| 0 <= j < rows.len() && rows[j] == want[2];
    lemma_setting_from_its_row(rows, j2);
    assert(got.auto_start == c.auto_start);
    assert(rows.contains(want[3]));
    let j3 = choose|j: int| 0 <= j < rows.len() && rows[j] == want[3];
    lemma_setting_from_its_row(rows, j3);
    assert(got.debug == c.debug);
}

/// Server ids as renumbered on import: each imported server's old id is
/// mapped to the id it was stored under, later servers replacing earlier ones.
pub open spec fn id_map_after(old_ids: Seq<Option<i64>>, new_ids: Seq<Option<i64>>) -> Map<i64, i64>
    decreases old_ids.len(),
{
    if old_ids.len() == 0 {
        Map::empty()
    } else {
        let before = id_map_after(old_ids.drop_last(), new_ids.take(old_ids.len() - 1));
        match (old_ids.last(), new_ids[old_ids.len() - 1]) {
            (Some(o), Some(n)) => before.insert(o, n),
            _ => before,
        }
    }
}

/// Import keeps references: a rule that pointed at an imported server
/// points, after import, at the id that server was stored under (the last
/// imported server with that old id, when several had it).
pub proof fn lemma_import_keeps_server_references(
    old_ids: Seq<Option<i64>>,
    new_ids: Seq<Option<i64>>,
    i: int,
    old: i64,
    new: i64,
)
    requires
        old_ids.len() == new_ids.len(),
        0 <= i < old_ids.len(),
        old_ids[i] == Some(old),
        new_ids[i] == Some(new),
        forall|j: int| i < j < old_ids.len() ==> #[trigger] old_ids[j] != Some(old) || new_ids[j] is None,
    ensures
        id_map_after(old_ids, new_ids).contains_key(old),
        id_map_after(old_ids, new_ids)[old] == new,
    decreases old_ids.len(),
{
    let n = old_ids.len();
    let last = n - 1;
    if i < last {
        let o2 = old_ids.drop_last();
        let n2 = new_ids.take(n - 1);
        assert forall|j: int| i < j < o2.len() implies #[trigger] o2[j] != Some(old) || n2[j] is None by {
            assert(o2[j] == old_ids[j]);
            assert(n2[j] == new_ids[j]);
        }
        assert(o2[i] == old_ids[i]);
        assert(n2[i] == new_ids[i]);
        lemma_import_keeps_server_references(o2, n2, i, old, new);
        assert(old_ids[last] != Some(old) || new_ids[last] is None);
    }
}

/// The old ids of (old id, new id) pairs.
pub open spec fn old_ids_of(pairs: Seq<(Option<i64>, Option<i64>)>) -> Seq<Option<i64>> {
    pairs.map_values(|p: (Option<i64>, Option<i64>)| p.0)
}

/// The new ids of (old id, new id) pairs.
pub open spec fn new_ids_of(pairs: Seq<(Option<i64>, Option<i64>)>) -> Seq<Option<i64>> {
    pairs.map_values(|p: (Option<i64>, Option<i64>)| p.1)
}

/// Maps each imported server's old id to its new one, from the (old id,
/// new id) pair of each server in import order.
pub fn server_id_map(pairs: &Vec<(Option<i64>, Option<i64>)>) -> (m: HashMap<i64, i64>)
    ensures
        m@ == id_map_after(old_ids_of(pairs@), new_ids_of(pairs@)),
{
    let mut m: HashMap<i64, i64> = HashMap::new();
    let mut i: usize = 0;
    while i < pairs.len()
        invariant
            i <= pairs@.len(),
            m@ == id_map_after(old_ids_of(pairs@).take(i as int), new_ids_of(pairs@).take(i as int)),
        decreases pairs@.len() - i,
    {
        let ghost olds = old_ids_of(pairs@);
        let ghost news = new_ids_of(pairs@);
        assert(olds.take(i + 1).drop_last() =~= olds.take(i as int));
        assert(news.take(i + 1).take(i as int) =~= news.take(i as int));
        assert(olds.take(i + 1).last() == pairs@[i as int].0);
        assert(news.take(i + 1)[i as int] == pairs@[i as int].1);
        match pairs[i] {
            (Some(o), Some(n)) => {
                m.insert(o, n);
            },
            _ => {},
        }
        i = i + 1;
    }
    assert(old_ids_of(pairs@).take(pairs@.len() as int) =~= old_ids_of(pairs@));
    assert(new_ids_of(pairs@).take(pairs@.len() as int) =~= new_ids_of(pairs@));
    m
}

/// The id a rule's server has after import: its new id when the server was
/// imported, else the id unchanged.
pub fn remapped_server_id(m: &HashMap<i64, i64>, id: i64) -> (r: i64)
    ensures
        r == (if m@.contains_key(id) {
            m@[id]
        } else {
            id
        }),
{
    match m.get(&id) {
        Some(n) => *n,
        None => id,
    }
}

} // verus!
