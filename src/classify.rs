//! From scraped UI elements to devices: the type heuristics, which elements
//! count as devices, and the page walk of discovery.
use crate::device::{initial_state, state_with_on, Device, DeviceType};
use crate::text::{has_infix, str_contains};
use vstd::prelude::*;
use vstd::string::*;

verus! {

/// What `str::to_lowercase` makes of a string.
pub uninterp spec fn lower_of(s: Seq<char>) -> Seq<char>;

/// Relies on `str::to_lowercase`: Unicode lower-casing, a function of the
/// characters alone.
#[verifier::external_body]
fn lowercase(s: &str) -> (r: String)
    ensures
        r@ == lower_of(s@),
{
    s.to_lowercase()
}

/// The device type suggested by an element's CSS classes and its
/// lower-cased name.
pub open spec fn device_type_of(classes: Seq<char>, lower_name: Seq<char>) -> DeviceType {
    if has_infix(lower_name, "temperatur"@) || has_infix(lower_name, "temp."@) {
        DeviceType::TemperatureSensor
    } else if has_infix(classes, "visu-slider"@) {
        DeviceType::Dimmer
    } else if has_infix(classes, "visu-shifter"@) {
        DeviceType::WindowCovering
    } else if has_infix(lower_name, "szene"@) {
        DeviceType::Scene
    } else if has_infix(lower_name, "lüftung"@) {
        DeviceType::Fan
    } else {
        DeviceType::Light
    }
}

/// Classifies an element whose name is already lower-cased.
pub fn classify_lowered(classes: &str, lower_name: &str) -> (r: DeviceType)
    ensures
        r == device_type_of(classes@, lower_name@),
{
    if str_contains(lower_name, "temperatur") || str_contains(lower_name, "temp.") {
        DeviceType::TemperatureSensor
    } else if str_contains(classes, "visu-slider") {
        DeviceType::Dimmer
    } else if str_contains(classes, "visu-shifter") {
        DeviceType::WindowCovering
    } else if str_contains(lower_name, "szene") {
        DeviceType::Scene
    } else if str_contains(lower_name, "lüftung") {
        DeviceType::Fan
    } else {
        DeviceType::Light
    }
}

/// Classifies an element by its CSS classes and its displayed name.
pub fn detect_device_type(classes: &str, name: &str) -> (r: DeviceType)
    ensures
        r == device_type_of(classes@, lower_of(name@)),
{
    let lower = lowercase(name);
    classify_lowered(classes, lower.as_str())
}

/// One element of a rendered UI page, as the scraper found it.
pub struct RawElement {
    /// The `id` attribute.
    pub id: Option<String>,
    /// The `data-index` attribute.
    pub index: Option<String>,
    /// The trimmed text of the element's name node, if it has one.
    pub name_text: Option<String>,
    /// The `class` attribute.
    pub classes: Option<String>,
    /// The `class` attribute of the element's icon button, if it has both.
    pub button_classes: Option<String>,
}

pub open spec fn view_or_empty(s: Option<String>) -> Seq<char> {
    match s {
        Some(x) => x@,
        None => Seq::empty(),
    }
}

impl RawElement {
    /// The name shown for the element: its name text, else its id.
    pub open spec fn name_spec(&self) -> Seq<char> {
        match self.name_text {
            Some(n) => n@,
            None => view_or_empty(self.id),
        }
    }

    /// Elements without an id or a name, and the date and time displays,
    /// are not devices.
    pub open spec fn is_device(&self) -> bool {
        &&& self.id is Some
        &&& self.name_spec().len() > 0
        &&& !has_infix(self.name_spec(), "Datum"@)
        &&& !has_infix(self.name_spec(), "Uhrzeit"@)
    }

    /// The button shows the element as switched on.
    pub open spec fn is_active(&self) -> bool {
        match self.button_classes {
            Some(c) => has_infix(c@, "btn-active"@),
            None => false,
        }
    }

    /// `d` is the device this element describes, on page `page`.
    pub open spec fn describes(&self, page: Seq<char>, d: Device) -> bool {
        let t = device_type_of(view_or_empty(self.classes), lower_of(self.name_spec()));
        &&& d.id@ == view_or_empty(self.id)
        &&& d.name@ == self.name_spec()
        &&& d.device_type == t
        &&& d.page@ == page
        &&& d.index@ == view_or_empty(self.index)
        &&& d.state == state_with_on(initial_state(t), self.is_active())
    }
}

fn string_or_empty(s: &Option<String>) -> (r: String)
    ensures
        r@ == view_or_empty(*s),
{
    match s {
        Some(x) => x.clone(),
        None => String::new(),
    }
}

/// The device an element describes, if it describes one.
pub fn device_from_element(e: &RawElement, page: &str) -> (r: Option<Device>)
    ensures
        match r {
            Some(d) => e.is_device() && e.describes(page@, d),
            None => !e.is_device(),
        },
{
    let id = match &e.id {
        Some(id) => id.clone(),
        None => return None,
    };
    let name = match &e.name_text {
        Some(n) => n.clone(),
        None => id.clone(),
    };
    if name.as_str().unicode_len() == 0 {
        return None;
    }
    let classes = string_or_empty(&e.classes);
    let device_type = detect_device_type(classes.as_str(), name.as_str());
    if str_contains(name.as_str(), "Datum") || str_contains(name.as_str(), "Uhrzeit") {
        return None;
    }
    let active = match &e.button_classes {
        Some(c) => str_contains(c.as_str(), "btn-active"),
        None => false,
    };
    let index = string_or_empty(&e.index);
    let mut device = Device::new(id, name, device_type, String::from_str(page), index);
    device.set_on(active);
    Some(device)
}

/// `out` lists, in order, the devices that the elements `elems` describe.
pub open spec fn parses_to(elems: Seq<RawElement>, page: Seq<char>, out: Seq<Device>) -> bool
    decreases elems.len(),
{
    if elems.len() == 0 {
        out.len() == 0
    } else if elems.last().is_device() {
        &&& out.len() > 0
        &&& elems.last().describes(page, out.last())
        &&& parses_to(elems.drop_last(), page, out.drop_last())
    } else {
        parses_to(elems.drop_last(), page, out)
    }
}

/// The devices among the elements of one page, in page order.
pub fn parse_devices(elems: &Vec<RawElement>, page: &str) -> (r: Vec<Device>)
    ensures
        parses_to(elems@, page@, r@),
{
    let mut out: Vec<Device> = Vec::new();
    let mut i: usize = 0;
    while i < elems.len()
        invariant
            i <= elems@.len(),
            parses_to(elems@.subrange(0, i as int), page@, out@),
        decreases elems.len() - i,
    {
        let ghost before = out@;
        let found = device_from_element(&elems[i], page);
        match found {
            Some(d) => {
                out.push(d);
                assert(out@.drop_last() =~= before);
            },
            None => {},
        }
        assert(elems@.subrange(0, i + 1).drop_last() =~= elems@.subrange(0, i as int));
        i = i + 1;
    }
    assert(elems@.subrange(0, elems@.len() as int) =~= elems@);
    out
}

/// The two-digit decimal form of `n`.
pub open spec fn two_digits(n: u8) -> Seq<char> {
    seq!["0123456789"@[(n / 10) as int], "0123456789"@[(n % 10) as int]]
}

/// The page number `n` as the vendor writes it: two digits.
pub fn page_label(n: u8) -> (r: String)
    requires
        n <= 99,
    ensures
        r@ == two_digits(n),
{
    let digits = "0123456789";
    proof {
        reveal_strlit("0123456789");
    }
    let hi = (n / 10) as usize;
    let lo = (n % 10) as usize;
    let mut r = String::from_str(digits.substring_char(hi, hi + 1));
    r.append(digits.substring_char(lo, lo + 1));
    assert(r@ =~= two_digits(n));
    r
}

/// The highest page discovery visits.
pub const LAST_PAGE: u8 = 99;

/// Discovery walks the pages from 1 and stops at the first page without
/// devices, or after the last page.
pub fn next_discovery_page(page: u8, devices_found: usize) -> (r: Option<u8>)
    ensures
        r == if devices_found == 0 || page >= LAST_PAGE {
            None
        } else {
            Some((page + 1) as u8)
        },
{
    if devices_found == 0 || page >= LAST_PAGE {
        None
    } else {
        Some(page + 1)
    }
}

} // verus!
