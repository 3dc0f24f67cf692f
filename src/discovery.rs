//! The rules of mapping discovery: how long to wait for a manual login, when
//! to stop walking pages, which commands each element gets, and how the
//! result is written out as a mapping file.
use crate::classify::LAST_PAGE;
use crate::command_mapper::{pair_views, table_of};
use crate::table::KeyedTable;
use crate::text::{
    chars_of, concat2, find_exec, find_from, has_infix, lemma_find_from_found, occurs_at,
    occurs_at_exec, str_contains,
};
use vstd::prelude::*;
use vstd::string::*;

verus! {

/// What mapping discovery needs: the backend and the account to log in
/// with, and whether the browser runs without a window.
pub struct AutoDiscovery {
    pub base_url: String,
    pub username: String,
    pub password: String,
    pub headless: bool,
}

/// One-second polls to wait for a manual login.
pub const MAX_LOGIN_WAIT_POLLS: u16 = 180;

#[derive(Clone, Copy, Debug, PartialEq, Eq, Structural)]
pub enum LoginWait {
    LoggedIn,
    /// Wait a second and look again.
    KeepWaiting,
    TimedOut,
}

/// The decision after a login check, `polls` checks after the first.
pub fn login_wait_step(polls: u16, logged_in: bool) -> (r: LoginWait)
    ensures
        r == if logged_in {
            LoginWait::LoggedIn
        } else if polls >= MAX_LOGIN_WAIT_POLLS {
            LoginWait::TimedOut
        } else {
            LoginWait::KeepWaiting
        },
{
    if logged_in {
        LoginWait::LoggedIn
    } else if polls >= MAX_LOGIN_WAIT_POLLS {
        LoginWait::TimedOut
    } else {
        LoginWait::KeepWaiting
    }
}

/// Consecutive empty pages after which discovery stops.
pub const EMPTY_PAGES_TO_STOP: u8 = 2;

/// The page walk of mapping discovery.
#[derive(Clone, Copy, Debug, PartialEq, Eq, Structural)]
pub struct PageScan {
    pub page: u8,
    pub consecutive_empty: u8,
}

pub open spec fn page_scan_next(s: PageScan, found: nat) -> Option<PageScan> {
    let empty = if found == 0 {
        s.consecutive_empty + 1
    } else {
        0
    };
    if empty >= EMPTY_PAGES_TO_STOP || s.page >= LAST_PAGE {
        None
    } else {
        Some(PageScan { page: (s.page + 1) as u8, consecutive_empty: empty as u8 })
    }
}

impl PageScan {
    pub fn start() -> (r: PageScan)
        ensures
            r == (PageScan { page: 1, consecutive_empty: 0 }),
    {
        PageScan { page: 1, consecutive_empty: 0 }
    }

    /// The next page to visit after this one yielded `found` mappings.
    pub fn next(self, found: usize) -> (r: Option<PageScan>)
        ensures
            r == page_scan_next(self, found as nat),
    {
        if found == 0 && self.consecutive_empty >= EMPTY_PAGES_TO_STOP - 1 {
            return None;
        }
        if self.page >= LAST_PAGE {
            return None;
        }
        let empty: u8 = if found == 0 {
            self.consecutive_empty + 1
        } else {
            0
        };
        Some(PageScan { page: self.page + 1, consecutive_empty: empty })
    }
}

/// Unicode white space, as `char::is_whitespace` documents it.
pub open spec fn is_white(c: char) -> bool {
    let x = c as u32;
    x == 0x20 || (0x09 <= x <= 0x0d) || x == 0x85 || x == 0xa0 || x == 0x1680 || (0x2000 <= x
        <= 0x200a) || x == 0x2028 || x == 0x2029 || x == 0x202f || x == 0x205f || x == 0x3000
}

pub fn is_white_exec(c: char) -> (r: bool)
    ensures
        r == is_white(c),
{
    let x = c as u32;
    x == 0x20 || (0x09 <= x && x <= 0x0d) || x == 0x85 || x == 0xa0 || x == 0x1680 || (0x2000 <= x
        && x <= 0x200a) || x == 0x2028 || x == 0x2029 || x == 0x202f || x == 0x205f || x == 0x3000
}

/// A white-space separated word of `s` starting at `i` begins with `icon-`.
pub open spec fn icon_word_at(s: Seq<char>, i: int) -> bool {
    &&& 0 <= i < s.len()
    &&& (i == 0 || is_white(s[i - 1]))
    &&& occurs_at(s, "icon-"@, i)
}

/// The first position at or after `i` where an `icon-` word starts, or -1.
pub open spec fn first_icon_word(s: Seq<char>, i: int) -> int
    decreases s.len() - i,
{
    if i < 0 || i >= s.len() {
        -1
    } else if icon_word_at(s, i) {
        i
    } else {
        first_icon_word(s, i + 1)
    }
}

/// Where the word that runs through `i` ends.
pub open spec fn word_end(s: Seq<char>, i: int) -> int
    decreases s.len() - i,
{
    if i < 0 || i >= s.len() {
        s.len() as int
    } else if is_white(s[i]) {
        i
    } else {
        word_end(s, i + 1)
    }
}

/// The first word of a class list that starts with `icon-`, or nothing.
pub open spec fn icon_type_of(classes: Seq<char>) -> Seq<char> {
    let i = first_icon_word(classes, 0);
    if i < 0 {
        Seq::empty()
    } else {
        classes.subrange(i, word_end(classes, i))
    }
}

proof fn lemma_word_end_bounds(s: Seq<char>, i: int)
    requires
        0 <= i <= s.len(),
    ensures
        i <= word_end(s, i) <= s.len(),
    decreases s.len() - i,
{
    if i < s.len() && !is_white(s[i]) {
        lemma_word_end_bounds(s, i + 1);
    }
}

/// The icon type named by an element's icon classes.
pub fn icon_type(classes: &str) -> (r: String)
    ensures
        r@ == icon_type_of(classes@),
{
    let c = chars_of(classes);
    let pat = chars_of("icon-");
    let n = c.len();
    let mut i: usize = 0;
    while i < n && !((i == 0 || is_white_exec(c[i - 1])) && occurs_at_exec(&c, &pat, i))
        invariant
            c@ == classes@,
            pat@ == "icon-"@,
            n == c@.len(),
            i <= n,
            first_icon_word(c@, 0) == first_icon_word(c@, i as int),
        decreases n - i,
    {
        i = i + 1;
    }
    if i == n {
        return String::new();
    }
    let mut j: usize = i;
    while j < n && !is_white_exec(c[j])
        invariant
            c@ == classes@,
            n == c@.len(),
            i <= j <= n,
            word_end(c@, i as int) == word_end(c@, j as int),
        decreases n - j,
    {
        j = j + 1;
    }
    proof {
        lemma_word_end_bounds(c@, i as int);
    }
    String::from_str(classes.substring_char(i, j))
}

/// The vendor's command for action `code` of the element at `index` on
/// `page`: `{index}+{code}+00+{page}`.
pub open spec fn command_spec(index: Seq<char>, code: Seq<char>, page: Seq<char>) -> Seq<char> {
    index + "+"@ + code + "+00+"@ + page
}

pub fn command_string(index: &str, code: &str, page: &str) -> (r: String)
    ensures
        r@ == command_spec(index@, code@, page@),
{
    let mut r = concat2(index, "+");
    r.append(code);
    r.append("+00+");
    r.append(page);
    r
}

/// One element as the page script reports it.
pub struct ElementRecord {
    pub id: String,
    pub name: String,
    pub index: String,
    pub page: String,
    pub is_shifter: bool,
    pub icon_class: String,
}

/// The key/command pairs an element contributes: three for a cover (up,
/// stop, down), one for anything else, none without an id or an index.
pub open spec fn element_mappings_spec(e: ElementRecord) -> Seq<(Seq<char>, Seq<char>)> {
    let key = e.id@ + "_page"@ + e.page@;
    if e.id@.len() == 0 || e.index@.len() == 0 {
        Seq::empty()
    } else if e.is_shifter {
        seq![
            (key + "_up"@, command_spec(e.index@, "01"@, e.page@)),
            (key + "_stop"@, command_spec(e.index@, "02"@, e.page@)),
            (key + "_down"@, command_spec(e.index@, "03"@, e.page@)),
        ]
    } else {
        seq![(key + "_"@ + icon_type_of(e.icon_class@), command_spec(e.index@, "01"@, e.page@))]
    }
}

/// Appends the pairs that `e` contributes to `out`.
pub fn element_mappings(e: &ElementRecord, out: &mut Vec<(String, String)>)
    ensures
        crate::command_mapper::pair_views(final(out)@) == crate::command_mapper::pair_views(
            old(out)@,
        ) + element_mappings_spec(*e),
{
    let ghost before = out@;
    if e.id.as_str().unicode_len() == 0 || e.index.as_str().unicode_len() == 0 {
        assert(crate::command_mapper::pair_views(out@) + Seq::empty() =~= crate::command_mapper::pair_views(out@));
        return;
    }
    let mut key = concat2(e.id.as_str(), "_page");
    key.append(e.page.as_str());
    if e.is_shifter {
        let up = concat2(key.as_str(), "_up");
        let stop = concat2(key.as_str(), "_stop");
        let down = concat2(key.as_str(), "_down");
        out.push((up, command_string(e.index.as_str(), "01", e.page.as_str())));
        out.push((stop, command_string(e.index.as_str(), "02", e.page.as_str())));
        out.push((down, command_string(e.index.as_str(), "03", e.page.as_str())));
    } else {
        let mut k = concat2(key.as_str(), "_");
        let icon = icon_type(e.icon_class.as_str());
        k.append(icon.as_str());
        out.push((k, command_string(e.index.as_str(), "01", e.page.as_str())));
    }
    assert(crate::command_mapper::pair_views(out@) =~= crate::command_mapper::pair_views(before)
        + element_mappings_spec(*e));
}

/// The sections of a mapping file.
#[derive(Clone, Copy, Debug, PartialEq, Eq, Structural)]
pub enum MappingCategory {
    Lights,
    Blinds,
    Dimmers,
    Ventilation,
    Scenes,
    Sensors,
    Switches,
}

/// The section a discovered key belongs in, judged by markers in the key.
pub open spec fn category_of(key: Seq<char>) -> MappingCategory {
    if has_infix(key, "Double3"@) {
        MappingCategory::Blinds
    } else if has_infix(key, "ExtendedSlider"@) {
        MappingCategory::Dimmers
    } else if has_infix(key, "icon-45"@) {
        MappingCategory::Ventilation
    } else if has_infix(key, "Szene"@) || has_infix(key, "Scene"@) || has_infix(key, "icon-11"@)
        || has_infix(key, "icon-76"@) {
        MappingCategory::Scenes
    } else if has_infix(key, "Temp"@) || has_infix(key, "Datum"@) || has_infix(key, "Uhrzeit"@)
        || has_infix(key, "gesperrt"@) {
        MappingCategory::Sensors
    } else if has_infix(key, "Single"@) {
        MappingCategory::Lights
    } else {
        MappingCategory::Switches
    }
}

pub fn categorize(key: &str) -> (r: MappingCategory)
    ensures
        r == category_of(key@),
{
    if str_contains(key, "Double3") {
        MappingCategory::Blinds
    } else if str_contains(key, "ExtendedSlider") {
        MappingCategory::Dimmers
    } else if str_contains(key, "icon-45") {
        MappingCategory::Ventilation
    } else if str_contains(key, "Szene") || str_contains(key, "Scene") || str_contains(
        key,
        "icon-11",
    ) || str_contains(key, "icon-76") {
        MappingCategory::Scenes
    } else if str_contains(key, "Temp") || str_contains(key, "Datum") || str_contains(
        key,
        "Uhrzeit",
    ) || str_contains(key, "gesperrt") {
        MappingCategory::Sensors
    } else if str_contains(key, "Single") {
        MappingCategory::Lights
    } else {
        MappingCategory::Switches
    }
}

/// A discovered key without its icon suffix: everything before the first
/// `_icon-`.
pub open spec fn clean_key_spec(key: Seq<char>) -> Seq<char> {
    let i = find_from(key, "_icon-"@, 0);
    if i < 0 {
        key
    } else {
        key.subrange(0, i)
    }
}

pub fn clean_key(key: &str) -> (r: String)
    ensures
        r@ == clean_key_spec(key@),
{
    let k = chars_of(key);
    let pat = chars_of("_icon-");
    match find_exec(&k, &pat, 0) {
        None => String::from_str(key),
        Some(i) => {
            proof {
                lemma_find_from_found(key@, "_icon-"@, 0);
            }
            String::from_str(key.substring_char(0, i))
        },
    }
}

pub open spec fn section_name(c: MappingCategory) -> Seq<char> {
    match c {
        MappingCategory::Lights => "lights"@,
        MappingCategory::Blinds => "blinds"@,
        MappingCategory::Dimmers => "dimmers"@,
        MappingCategory::Ventilation => "ventilation"@,
        MappingCategory::Scenes => "scenes"@,
        MappingCategory::Sensors => "sensors"@,
        MappingCategory::Switches => "switches"@,
    }
}

fn section_name_str(c: MappingCategory) -> (r: &'static str)
    ensures
        r@ == section_name(c),
{
    match c {
        MappingCategory::Lights => "lights",
        MappingCategory::Blinds => "blinds",
        MappingCategory::Dimmers => "dimmers",
        MappingCategory::Ventilation => "ventilation",
        MappingCategory::Scenes => "scenes",
        MappingCategory::Sensors => "sensors",
        MappingCategory::Switches => "switches",
    }
}

/// The pairs of `entries` in category `c`, with cleaned keys.
pub open spec fn in_category(entries: Seq<(Seq<char>, Seq<char>)>, c: MappingCategory) -> Seq<
    (Seq<char>, Seq<char>),
>
    decreases entries.len(),
{
    if entries.len() == 0 {
        Seq::empty()
    } else {
        let rest = in_category(entries.drop_last(), c);
        let (k, v) = entries.last();
        if category_of(k) == c {
            rest.push((clean_key_spec(k), v))
        } else {
            rest
        }
    }
}

/// The keys of `s`, each once, in order of first appearance.
pub open spec fn first_keys(s: Seq<(Seq<char>, Seq<char>)>) -> Seq<Seq<char>>
    decreases s.len(),
{
    if s.len() == 0 {
        Seq::empty()
    } else {
        let r = first_keys(s.drop_last());
        if r.contains(s.last().0) {
            r
        } else {
            r.push(s.last().0)
        }
    }
}

/// `"{key}" = "{value}"` and a line break.
pub open spec fn line_spec(key: Seq<char>, value: Seq<char>) -> Seq<char> {
    "\""@ + key + "\" = \""@ + value + "\"\n"@
}

/// The lines of a section, one per key; sensor sections write the read-only
/// marker in place of the command.
pub open spec fn lines_spec(keys: Seq<Seq<char>>, t: Map<Seq<char>, Seq<char>>, readonly: bool) -> Seq<
    char,
>
    decreases keys.len(),
{
    if keys.len() == 0 {
        Seq::empty()
    } else {
        lines_spec(keys.drop_last(), t, readonly) + line_spec(
            keys.last(),
            if readonly {
                "READONLY"@
            } else {
                t[keys.last()]
            },
        )
    }
}

/// The section of category `c`: empty when the category has no pairs.
pub open spec fn section_spec(entries: Seq<(Seq<char>, Seq<char>)>, c: MappingCategory) -> Seq<char> {
    let s = in_category(entries, c);
    let keys = first_keys(s);
    if keys.len() == 0 {
        Seq::empty()
    } else {
        "["@ + section_name(c) + "]\n"@ + lines_spec(keys, table_of(s), c == MappingCategory::Sensors)
            + "\n"@
    }
}

pub open spec fn file_header() -> Seq<char> {
    "# Auto-generated device mappings\n# Generated by auto-discovery mode\n\n"@
}

/// The mapping file for the discovered pairs `entries`.
pub open spec fn mappings_file_spec(entries: Seq<(Seq<char>, Seq<char>)>) -> Seq<char> {
    file_header() + section_spec(entries, MappingCategory::Lights) + section_spec(
        entries,
        MappingCategory::Blinds,
    ) + section_spec(entries, MappingCategory::Dimmers) + section_spec(
        entries,
        MappingCategory::Ventilation,
    ) + section_spec(entries, MappingCategory::Scenes) + section_spec(
        entries,
        MappingCategory::Sensors,
    ) + section_spec(entries, MappingCategory::Switches)
}

/// Collects the pairs of category `c`, later pairs replacing earlier ones
/// with the same cleaned key.
fn collect_category(entries: &Vec<(String, String)>, c: MappingCategory) -> (r: KeyedTable<String>)
    ensures
        r.wf(),
        r@.map_values(|v: String| v@) == table_of(in_category(pair_views(entries@), c)),
        r.key_order() == first_keys(in_category(pair_views(entries@), c)),
{
    let mut t: KeyedTable<String> = KeyedTable::new();
    let ghost all = pair_views(entries@);
    assert(t@.map_values(|v: String| v@) =~= table_of(Seq::empty()));
    assert(all.subrange(0, 0) =~= Seq::<(Seq<char>, Seq<char>)>::empty());
    let mut i: usize = 0;
    while i < entries.len()
        invariant
            all == pair_views(entries@),
            i <= entries@.len(),
            t.wf(),
            t@.map_values(|v: String| v@) == table_of(in_category(all.subrange(0, i as int), c)),
            t.key_order() == first_keys(in_category(all.subrange(0, i as int), c)),
        decreases entries.len() - i,
    {
        let ghost prev = in_category(all.subrange(0, i as int), c);
        assert(all.subrange(0, i + 1).drop_last() =~= all.subrange(0, i as int));
        assert(all.subrange(0, i + 1).last() == all[i as int]);
        if categorize(entries[i].0.as_str()) == c {
            let k = clean_key(entries[i].0.as_str());
            let v = entries[i].1.clone();
            let ghost old_t = t@;
            let ghost next = prev.push((k@, v@));
            assert(next.drop_last() =~= prev);
            assert(t@.contains_key(k@) <==> t.key_order().contains(k@));
            t.insert(k, v);
            assert(t@.map_values(|v: String| v@) =~= old_t.map_values(|v: String| v@).insert(
                next.last().0,
                next.last().1,
            ));
        }
        i = i + 1;
    }
    assert(all.subrange(0, entries@.len() as int) =~= all);
    t
}

/// The text of one section.
fn render_section(entries: &Vec<(String, String)>, c: MappingCategory) -> (r: String)
    ensures
        r@ == section_spec(pair_views(entries@), c),
{
    let t = collect_category(entries, c);
    let ghost s = in_category(pair_views(entries@), c);
    let ghost tab = table_of(s);
    let n = t.len();
    if n == 0 {
        return String::new();
    }
    let readonly = c == MappingCategory::Sensors;
    let mut out = String::from_str("[");
    out.append(section_name_str(c));
    out.append("]\n");
    let ghost head = out@;
    assert(t.key_order().subrange(0, 0) =~= Seq::<Seq<char>>::empty());
    assert(out@ =~= head + lines_spec(t.key_order().subrange(0, 0), tab, readonly));
    let mut j: usize = 0;
    while j < n
        invariant
            t.wf(),
            n == t.key_order().len(),
            j <= n,
            tab == table_of(s),
            t@.map_values(|v: String| v@) == tab,
            out@ == head + lines_spec(t.key_order().subrange(0, j as int), tab, readonly),
        decreases n - j,
    {
        let key = t.key_at(j);
        assert(t.key_order().contains(key@));
        let value: &str = if readonly {
            "READONLY"
        } else {
            match t.get(key.as_str()) {
                Some(v) => v.as_str(),
                None => "",
            }
        };
        assert(value@ == if readonly {
            "READONLY"@
        } else {
            tab[key@]
        });
        let ghost before = out@;
        out.append("\"");
        out.append(key.as_str());
        out.append("\" = \"");
        out.append(value);
        out.append("\"\n");
        proof {
            let ks = t.key_order().subrange(0, j + 1);
            assert(ks.drop_last() =~= t.key_order().subrange(0, j as int));
            assert(ks.last() == key@);
            assert(out@ =~= before + line_spec(key@, value@));
        }
        j = j + 1;
    }
    out.append("\n");
    assert(t.key_order().subrange(0, n as int) =~= t.key_order());
    out
}

/// The mapping file for the discovered pairs: a header, then a section per
/// non-empty category in the order lights, blinds, dimmers, ventilation,
/// scenes, sensors, switches.
pub fn render_mappings(entries: &Vec<(String, String)>) -> (r: String)
    ensures
        r@ == mappings_file_spec(pair_views(entries@)),
{
    let mut out = String::from_str(
        "# Auto-generated device mappings\n# Generated by auto-discovery mode\n\n",
    );
    let a = render_section(entries, MappingCategory::Lights);
    out.append(a.as_str());
    let b = render_section(entries, MappingCategory::Blinds);
    out.append(b.as_str());
    let d = render_section(entries, MappingCategory::Dimmers);
    out.append(d.as_str());
    let v = render_section(entries, MappingCategory::Ventilation);
    out.append(v.as_str());
    let sc = render_section(entries, MappingCategory::Scenes);
    out.append(sc.as_str());
    let se = render_section(entries, MappingCategory::Sensors);
    out.append(se.as_str());
    let sw = render_section(entries, MappingCategory::Switches);
    out.append(sw.as_str());
    out
}

} // verus!
