//! Device keys and the table from device keys to vendor control strings.
use crate::table::KeyedTable;
use crate::text::{concat2, has_infix, occurs_at, str_contains};
use vstd::prelude::*;
use vstd::string::*;

verus! {

/// The value that marks a device key as observable but not controllable.
pub open spec fn readonly_spec() -> Seq<char> {
    "READONLY"@
}

/// Marker that separates an element id from its page number in a key.
pub open spec fn page_marker_spec() -> Seq<char> {
    "_page"@
}

/// The key of the element `id` found on page `page`: the id itself when it
/// already carries a page marker, else `{id}_page{page}`.
pub open spec fn key_of(id: Seq<char>, page: Seq<char>) -> Seq<char> {
    if has_infix(id, page_marker_spec()) {
        id
    } else {
        id + page_marker_spec() + page
    }
}

/// Deriving a key from a key (with the same page) gives it back unchanged.
pub proof fn lemma_device_key_idempotent(id: Seq<char>, page: Seq<char>)
    ensures
        key_of(key_of(id, page), page) == key_of(id, page),
{
    if !has_infix(id, page_marker_spec()) {
        let m = page_marker_spec();
        let k = id + m + page;
        assert(k.subrange(id.len() as int, (id.len() + m.len()) as int) =~= m);
        assert(occurs_at(k, m, id.len() as int));
    }
}

/// The suffixed key of one cover action.
pub open spec fn cover_key(base: Seq<char>, action: CoverAction) -> Seq<char> {
    base + cover_suffix(action)
}

pub open spec fn cover_suffix(action: CoverAction) -> Seq<char> {
    match action {
        CoverAction::Up => "_up"@,
        CoverAction::Stop => "_stop"@,
        CoverAction::Down => "_down"@,
    }
}

/// The three pulse commands of a motorised cover.
#[derive(Clone, Copy, Debug, PartialEq, Eq, Structural)]
pub enum CoverAction {
    Up,
    Stop,
    Down,
}

/// The views of a list of key/command pairs.
pub open spec fn pair_views(s: Seq<(String, String)>) -> Seq<(Seq<char>, Seq<char>)> {
    s.map_values(|p: (String, String)| (p.0@, p.1@))
}

/// The table that results from inserting the pairs of `s` in order: a key
/// that occurs twice keeps its last command.
pub open spec fn table_of(s: Seq<(Seq<char>, Seq<char>)>) -> Map<Seq<char>, Seq<char>>
    decreases s.len(),
{
    if s.len() == 0 {
        Map::empty()
    } else {
        table_of(s.drop_last()).insert(s.last().0, s.last().1)
    }
}

/// Command mappings grouped by device category.
pub struct DeviceMappings {
    pub lights: Vec<(String, String)>,
    pub blinds: Vec<(String, String)>,
    pub dimmers: Vec<(String, String)>,
    pub ventilation: Vec<(String, String)>,
    pub scenes: Vec<(String, String)>,
    pub switches: Vec<(String, String)>,
    pub sensors: Vec<(String, String)>,
}

impl DeviceMappings {
    /// All pairs, category after category in the order lights, blinds,
    /// dimmers, ventilation, scenes, switches, sensors.
    pub open spec fn entries(&self) -> Seq<(Seq<char>, Seq<char>)> {
        pair_views(self.lights@) + pair_views(self.blinds@) + pair_views(self.dimmers@)
            + pair_views(self.ventilation@) + pair_views(self.scenes@) + pair_views(
            self.switches@,
        ) + pair_views(self.sensors@)
    }
}

/// The three commands of a cover.
#[derive(Debug)]
pub struct BlindCommands {
    pub up: String,
    pub stop: String,
    pub down: String,
}

/// Looks up control strings by device key.
pub struct CommandMapper {
    command_cache: KeyedTable<String>,
}

/// Adds the pairs of `v` to `table` in order.
fn absorb(table: &mut KeyedTable<String>, v: &Vec<(String, String)>, Ghost(before): Ghost<
    Seq<(Seq<char>, Seq<char>)>,
>)
    requires
        old(table).wf(),
        old(table)@.map_values(|c: String| c@) == table_of(before),
    ensures
        final(table).wf(),
        final(table)@.map_values(|c: String| c@) == table_of(before + pair_views(v@)),
{
    let mut i: usize = 0;
    while i < v.len()
        invariant
            i <= v@.len(),
            table.wf(),
            table@.map_values(|c: String| c@) == table_of(
                before + pair_views(v@.subrange(0, i as int)),
            ),
        decreases v.len() - i,
    {
        let ghost prev = before + pair_views(v@.subrange(0, i as int));
        let key = v[i].0.clone();
        let cmd = v[i].1.clone();
        let ghost old_map = table@;
        table.insert(key, cmd);
        proof {
            let next = before + pair_views(v@.subrange(0, i + 1));
            assert(next.drop_last() =~= prev);
            assert(next.last() == (v@[i as int].0@, v@[i as int].1@));
            assert(table@.map_values(|c: String| c@) =~= old_map.map_values(|c: String| c@).insert(
                next.last().0,
                next.last().1,
            ));
        }
        i = i + 1;
    }
    assert(v@.subrange(0, v@.len() as int) =~= v@);
}

impl CommandMapper {
    /// The table from device keys to control strings.
    pub closed spec fn table(&self) -> Map<Seq<char>, Seq<char>> {
        self.command_cache@.map_values(|c: String| c@)
    }

    /// The keys of the table, each once.
    pub closed spec fn key_order(&self) -> Seq<Seq<char>> {
        self.command_cache.key_order()
    }

    pub closed spec fn wf(&self) -> bool {
        self.command_cache.wf()
    }

    /// Flattens the categories into one table; where a key occurs twice the
    /// later category wins.
    pub fn from_mappings(mappings: DeviceMappings) -> (r: Self)
        ensures
            r.wf(),
            r.table() == table_of(mappings.entries()),
    {
        let mut t: KeyedTable<String> = KeyedTable::new();
        assert(t@.map_values(|c: String| c@) =~= table_of(Seq::empty()));
        let ghost s0 = Seq::<(Seq<char>, Seq<char>)>::empty();
        absorb(&mut t, &mappings.lights, Ghost(s0));
        let ghost s1 = s0 + pair_views(mappings.lights@);
        absorb(&mut t, &mappings.blinds, Ghost(s1));
        let ghost s2 = s1 + pair_views(mappings.blinds@);
        absorb(&mut t, &mappings.dimmers, Ghost(s2));
        let ghost s3 = s2 + pair_views(mappings.dimmers@);
        absorb(&mut t, &mappings.ventilation, Ghost(s3));
        let ghost s4 = s3 + pair_views(mappings.ventilation@);
        absorb(&mut t, &mappings.scenes, Ghost(s4));
        let ghost s5 = s4 + pair_views(mappings.scenes@);
        absorb(&mut t, &mappings.switches, Ghost(s5));
        let ghost s6 = s5 + pair_views(mappings.switches@);
        absorb(&mut t, &mappings.sensors, Ghost(s6));
        let ghost s7 = s6 + pair_views(mappings.sensors@);
        assert(s7 =~= mappings.entries());
        CommandMapper { command_cache: t }
    }

    /// The key of element `device_id` on page `page`.
    pub fn device_key(device_id: &str, page: &str) -> (r: String)
        ensures
            r@ == key_of(device_id@, page@),
    {
        if str_contains(device_id, "_page") {
            String::from_str(device_id)
        } else {
            let mut k = concat2(device_id, "_page");
            k.append(page);
            k
        }
    }

    /// The command stored under `key`, unless it is absent or read-only.
    pub fn command_for_key(&self, key: &str) -> (r: Option<&str>)
        requires
            self.wf(),
        ensures
            match r {
                Some(c) => self.table().contains_key(key@) && self.table()[key@] != readonly_spec()
                    && c@ == self.table()[key@],
                None => !self.table().contains_key(key@) || self.table()[key@]
                    == readonly_spec(),
            },
    {
        match self.command_cache.get(key) {
            Some(cmd) => {
                let marker = String::from_str("READONLY");
                if *cmd == marker {
                    None
                } else {
                    Some(cmd.as_str())
                }
            },
            None => None,
        }
    }

    /// The command of a device, unless it is unmapped or read-only.
    pub fn get_command(&self, device_id: &str, page: &str) -> (r: Option<&str>)
        requires
            self.wf(),
        ensures
            ({
                let k = key_of(device_id@, page@);
                match r {
                    Some(c) => self.table().contains_key(k) && self.table()[k] != readonly_spec()
                        && c@ == self.table()[k],
                    None => !self.table().contains_key(k) || self.table()[k] == readonly_spec(),
                }
            }),
    {
        let key = Self::device_key(device_id, page);
        self.command_for_key(key.as_str())
    }

    /// The command for one action of a cover, unless it is unmapped or
    /// read-only.
    pub fn get_cover_command(&self, device_id: &str, page: &str, action: CoverAction) -> (r:
        Option<&str>)
        requires
            self.wf(),
        ensures
            ({
                let k = cover_key(key_of(device_id@, page@), action);
                match r {
                    Some(c) => self.table().contains_key(k) && self.table()[k] != readonly_spec()
                        && c@ == self.table()[k],
                    None => !self.table().contains_key(k) || self.table()[k] == readonly_spec(),
                }
            }),
    {
        let base = Self::device_key(device_id, page);
        let suffix = match action {
            CoverAction::Up => "_up",
            CoverAction::Stop => "_stop",
            CoverAction::Down => "_down",
        };
        let key = concat2(base.as_str(), suffix);
        self.command_for_key(key.as_str())
    }

    /// All three cover commands, provided each is mapped and none is
    /// read-only.
    pub fn get_blind_commands(&self, device_id: &str, page: &str) -> (r: Option<BlindCommands>)
        requires
            self.wf(),
        ensures
            ({
                let base = key_of(device_id@, page@);
                let ku = cover_key(base, CoverAction::Up);
                let ks = cover_key(base, CoverAction::Stop);
                let kd = cover_key(base, CoverAction::Down);
                let usable = |k: Seq<char>|
                    self.table().contains_key(k) && self.table()[k] != readonly_spec();
                match r {
                    Some(b) => usable(ku) && usable(ks) && usable(kd) && b.up@ == self.table()[ku]
                        && b.stop@ == self.table()[ks] && b.down@ == self.table()[kd],
                    None => !(usable(ku) && usable(ks) && usable(kd)),
                }
            }),
    {
        let up = self.get_cover_command(device_id, page, CoverAction::Up);
        let stop = self.get_cover_command(device_id, page, CoverAction::Stop);
        let down = self.get_cover_command(device_id, page, CoverAction::Down);
        match (up, stop, down) {
            (Some(u), Some(s), Some(d)) => Some(
                BlindCommands {
                    up: String::from_str(u),
                    stop: String::from_str(s),
                    down: String::from_str(d),
                },
            ),
            _ => None,
        }
    }

    /// Whether the device's key is mapped to the read-only marker.
    pub fn is_readonly(&self, device_id: &str, page: &str) -> (r: bool)
        requires
            self.wf(),
        ensures
            r == ({
                let k = key_of(device_id@, page@);
                self.table().contains_key(k) && self.table()[k] == readonly_spec()
            }),
    {
        let key = Self::device_key(device_id, page);
        match self.command_cache.get(key.as_str()) {
            Some(cmd) => {
                let marker = String::from_str("READONLY");
                *cmd == marker
            },
            None => false,
        }
    }

    /// Every key of the table, each once.
    pub fn all_keys(&self) -> (r: Vec<String>)
        requires
            self.wf(),
        ensures
            crate::table::string_views(r@) == self.key_order(),
            self.key_order().no_duplicates(),
            forall|k: Seq<char>| self.table().contains_key(k) <==> self.key_order().contains(k),
    {
        let n = self.command_cache.len();
        let mut r: Vec<String> = Vec::new();
        let mut i: usize = 0;
        while i < n
            invariant
                n == self.command_cache.key_order().len(),
                i <= n,
                crate::table::string_views(r@) == self.command_cache.key_order().subrange(
                    0,
                    i as int,
                ),
            decreases n - i,
        {
            let k = self.command_cache.key_at(i).clone();
            let ghost before = r@;
            r.push(k);
            assert(r@ == before.push(k));
            assert(crate::table::string_views(r@) =~= crate::table::string_views(before).push(k@));
            assert(crate::table::string_views(r@) =~= self.command_cache.key_order().subrange(
                0,
                i + 1,
            ));
            i = i + 1;
        }
        assert(self.command_cache.key_order().subrange(0, n as int)
            =~= self.command_cache.key_order());
        assert forall|k: Seq<char>| self.table().contains_key(k) <==> self.key_order().contains(
            k,
        ) by {
            assert(self.command_cache@.contains_key(k) <==> self.command_cache.key_order().contains(
                k,
            ));
        }
        r
    }
}

} // verus!
