//! Reader discovery on the USB device tree and correlation of PC/SC reader
//! names with USB hardware paths.
use vstd::prelude::*;
use crate::text::{
    has_substring, sort_strings, str_contains, str_eq, texts_sorted, views,
};

verus! {

/// A FeliCa reader found on the USB device tree.
#[derive(Clone, Debug)]
pub struct UsbReaderInfo {
    /// The sysfs device name, the hardware path of its socket.
    pub usb_port: String,
    /// Lower-case four-digit USB product id.
    pub product_id: String,
    /// Model name of the reader.
    pub reader_name: String,
}

/// The model of a known (vendor id, product id) pair.
pub open spec fn known_model(vendor: Seq<char>, product: Seq<char>) -> Option<Seq<char>> {
    if vendor == "054c"@ && product == "01bb"@ {
        Some("RC-S320"@)
    } else if vendor == "054c"@ && product == "0dc9"@ {
        Some("RC-S300"@)
    } else {
        None
    }
}

/// The model name of a known Sony FeliCa reader, by its USB ids.
pub fn known_reader_model(vendor: &str, product: &str) -> (r: Option<&'static str>)
    ensures
        match r {
            Some(m) => known_model(vendor@, product@) == Some(m@),
            None => known_model(vendor@, product@) is None,
        },
{
    if str_eq(vendor, "054c") && str_eq(product, "01bb") {
        Some("RC-S320")
    } else if str_eq(vendor, "054c") && str_eq(product, "0dc9") {
        Some("RC-S300")
    } else {
        None
    }
}

/// Reader info for the device `dir_name`, from its normalised vendor and
/// product ids, when they name a known reader.
pub fn reader_info_for(dir_name: &str, vendor: &str, product: &str) -> (r: Option<UsbReaderInfo>)
    ensures
        match r {
            Some(info) => {
                &&& known_model(vendor@, product@) == Some(info.reader_name@)
                &&& info.usb_port@ == dir_name@
                &&& info.product_id@ == product@
            },
            None => known_model(vendor@, product@) is None,
        },
{
    match known_reader_model(vendor, product) {
        Some(model) => Some(
            UsbReaderInfo {
                usb_port: dir_name.to_owned(),
                product_id: product.to_owned(),
                reader_name: model.to_owned(),
            },
        ),
        None => None,
    }
}

/// What `str::trim` returns for a text.
pub uninterp spec fn trimmed_of(s: Seq<char>) -> Seq<char>;

/// What `str::to_lowercase` returns for a text.
pub uninterp spec fn lowercase_of(s: Seq<char>) -> Seq<char>;

/// Relies on `str::trim`: the text without leading and trailing white space.
#[verifier::external_body]
fn trim_text(s: &str) -> (r: &str)
    ensures
        r@ == trimmed_of(s@),
{
    s.trim()
}

/// Relies on `str::to_lowercase`: the lower-case form of the text.
#[verifier::external_body]
fn lowercase(s: &str) -> (r: String)
    ensures
        r@ == lowercase_of(s@),
{
    s.to_lowercase()
}

/// The id as read from a sysfs attribute file, trimmed and lower-cased.
pub open spec fn normalised_id(raw: Seq<char>) -> Seq<char> {
    lowercase_of(trimmed_of(raw))
}

/// Identify the device `dir_name` from the raw contents of its `idVendor`
/// and `idProduct` attribute files.
pub fn identify_reader(dir_name: &str, vendor_raw: &str, product_raw: &str) -> (r: Option<
    UsbReaderInfo,
>)
    ensures
        match r {
            Some(info) => {
                &&& known_model(normalised_id(vendor_raw@), normalised_id(product_raw@)) == Some(
                    info.reader_name@,
                )
                &&& info.usb_port@ == dir_name@
                &&& info.product_id@ == normalised_id(product_raw@)
            },
            None => known_model(normalised_id(vendor_raw@), normalised_id(product_raw@)) is None,
        },
{
    let vendor = lowercase(trim_text(vendor_raw));
    let product = lowercase(trim_text(product_raw));
    reader_info_for(dir_name, vendor.as_str(), product.as_str())
}

/// Find the USB port of the first reader with the given product id.
pub fn find_usb_port_for_product(readers: &Vec<UsbReaderInfo>, product_id: &str) -> (r: Option<
    String,
>)
    ensures
        match r {
            Some(port) => exists|i: int|
                0 <= i < readers@.len() && #[trigger] readers@[i].product_id@ == product_id@
                    && port@ == readers@[i].usb_port@ && forall|j: int|
                    0 <= j < i ==> #[trigger] readers@[j].product_id@ != product_id@,
            None => forall|j: int|
                0 <= j < readers@.len() ==> #[trigger] readers@[j].product_id@ != product_id@,
        },
{
    let mut i: usize = 0;
    while i < readers.len()
        invariant
            i <= readers@.len(),
            forall|j: int| 0 <= j < i ==> #[trigger] readers@[j].product_id@ != product_id@,
        decreases readers@.len() - i,
    {
        if str_eq(readers[i].product_id.as_str(), product_id) {
            return Some(readers[i].usb_port.clone());
        }
        i += 1;
    }
    None
}

/// Model name and upper-case id by which PC/SC reader names of a product are
/// recognised.
pub open spec fn pcsc_product(pid: Seq<char>) -> Option<(Seq<char>, Seq<char>)> {
    if pid == "0dc9"@ {
        Some(("RC-S300"@, "0DC9"@))
    } else if pid == "01bb"@ {
        Some(("RC-S320"@, "01BB"@))
    } else if pid == "02e1"@ {
        Some(("RC-S330"@, "02E1"@))
    } else {
        None
    }
}

fn pcsc_product_names(pid: &str) -> (r: Option<(&'static str, &'static str)>)
    ensures
        match r {
            Some((model, upper)) => pcsc_product(pid@) == Some((model@, upper@)),
            None => pcsc_product(pid@) is None,
        },
{
    if str_eq(pid, "0dc9") {
        Some(("RC-S300", "0DC9"))
    } else if str_eq(pid, "01bb") {
        Some(("RC-S320", "01BB"))
    } else if str_eq(pid, "02e1") {
        Some(("RC-S330", "02E1"))
    } else {
        None
    }
}

/// The names, in order, that contain the model name or the upper-case id.
pub open spec fn names_matching(names: Seq<Seq<char>>, model: Seq<char>, upper: Seq<char>) -> Seq<
    Seq<char>,
>
    decreases names.len(),
{
    if names.len() == 0 {
        Seq::empty()
    } else {
        let rest = names_matching(names.drop_last(), model, upper);
        if has_substring(names.last(), model) || has_substring(names.last(), upper) {
            rest.push(names.last())
        } else {
            rest
        }
    }
}

/// The USB ports, in order, of the readers with product id `pid`.
pub open spec fn ports_of(readers: Seq<UsbReaderInfo>, pid: Seq<char>) -> Seq<Seq<char>>
    decreases readers.len(),
{
    if readers.len() == 0 {
        Seq::empty()
    } else {
        let rest = ports_of(readers.drop_last(), pid);
        if readers.last().product_id@ == pid {
            rest.push(readers.last().usb_port@)
        } else {
            rest
        }
    }
}

/// Reader names paired with USB ports.
pub struct PortMapping {
    /// (reader name, USB port) pairs.
    pub pairs: Vec<(String, String)>,
    /// The two lists that were paired differed in length.
    pub count_mismatch: bool,
}

pub open spec fn pair_views(s: Seq<(String, String)>) -> Seq<(Seq<char>, Seq<char>)> {
    s.map_values(|p: (String, String)| (p.0@, p.1@))
}

/// `pairs` pairs `names` and `ports` index for index, over the shorter length.
pub open spec fn pairs_by_index(
    pairs: Seq<(Seq<char>, Seq<char>)>,
    names: Seq<Seq<char>>,
    ports: Seq<Seq<char>>,
) -> bool {
    &&& pairs.len() == if names.len() <= ports.len() {
        names.len()
    } else {
        ports.len()
    }
    &&& forall|i: int| 0 <= i < pairs.len() ==> #[trigger] pairs[i] == (names[i], ports[i])
}

/// `t` is `s` in ascending order.
pub open spec fn is_sorted_form(s: Seq<Seq<char>>, t: Seq<Seq<char>>) -> bool {
    texts_sorted(t) && t.to_multiset() =~= s.to_multiset()
}

/// Pair reader names with USB ports index for index; when the counts
/// differ, pair over the shorter list and flag the mismatch.
pub fn pair_by_index(names: &Vec<String>, ports: &Vec<String>) -> (r: PortMapping)
    ensures
        pairs_by_index(pair_views(r.pairs@), views(names@), views(ports@)),
        r.count_mismatch == (names@.len() != ports@.len()),
{
    let mut pairs: Vec<(String, String)> = Vec::new();
    let mut i: usize = 0;
    while i < names.len() && i < ports.len()
        invariant
            i <= names@.len(),
            i <= ports@.len(),
            pairs@.len() == i,
            forall|k: int|
                0 <= k < i ==> #[trigger] pair_views(pairs@)[k] == (names@[k]@, ports@[k]@),
        decreases names@.len() - i,
    {
        let ghost before = pairs@;
        let pair = (names[i].clone(), ports[i].clone());
        pairs.push(pair);
        proof {
            assert forall|k: int| 0 <= k < i + 1 implies #[trigger] pair_views(pairs@)[k] == (
                names@[k]@,
                ports@[k]@,
            ) by {
                if k < i {
                    assert(pairs@[k] == before[k]);
                    assert(pair_views(before)[k] == (names@[k]@, ports@[k]@));
                }
            }
        }
        i += 1;
    }
    PortMapping { pairs, count_mismatch: names.len() != ports.len() }
}

impl PortMapping {
    /// The USB port paired with `name`; the last pair wins where a name repeats.
    pub fn port_for_reader(&self, name: &str) -> (r: Option<String>)
        ensures
            match r {
                Some(port) => exists|i: int|
                    0 <= i < self.pairs@.len() && #[trigger] self.pairs@[i].0@ == name@
                        && port@ == self.pairs@[i].1@ && forall|j: int|
                        i < j < self.pairs@.len() ==> #[trigger] self.pairs@[j].0@ != name@,
                None => forall|j: int|
                    0 <= j < self.pairs@.len() ==> #[trigger] self.pairs@[j].0@ != name@,
            },
    {
        let mut i = self.pairs.len();
        while i > 0
            invariant
                i <= self.pairs@.len(),
                forall|j: int| i <= j < self.pairs@.len() ==> #[trigger] self.pairs@[j].0@ != name@,
            decreases i,
        {
            i -= 1;
            if str_eq(self.pairs[i].0.as_str(), name) {
                return Some(self.pairs[i].1.clone());
            }
        }
        None
    }

    /// The mapping must be rebuilt when it is empty or when the number of
    /// readers no longer equals the number of mapped names.
    pub fn needs_rebuild(&self, reader_count: usize) -> (r: bool)
        ensures
            r == (self.pairs@.len() == 0 || reader_count != self.pairs@.len()),
    {
        self.pairs.len() == 0 || reader_count != self.pairs.len()
    }
}

/// Correlate PC/SC reader names with USB ports for one product: the USB
/// ports of that product's readers, sorted, are paired index for index with
/// the sorted reader names that carry the product's model name or upper-case
/// id. An unknown product gives an empty mapping.
pub fn build_pcsc_to_usb_mapping(
    pcsc_reader_names: &Vec<String>,
    readers: &Vec<UsbReaderInfo>,
    product_id: &str,
) -> (r: PortMapping)
    ensures
        match pcsc_product(product_id@) {
            None => r.pairs@.len() == 0 && !r.count_mismatch,
            Some((model, upper)) => exists|sn: Seq<Seq<char>>, sp: Seq<Seq<char>>|
                #[trigger] pairs_by_index(pair_views(r.pairs@), sn, sp) && is_sorted_form(
                    names_matching(views(pcsc_reader_names@), model, upper),
                    sn,
                ) && is_sorted_form(ports_of(readers@, product_id@), sp) && r.count_mismatch == (
                sn.len() != sp.len()),
        },
{
    let mut usb_ports: Vec<String> = Vec::new();
    let mut i: usize = 0;
    while i < readers.len()
        invariant
            i <= readers@.len(),
            views(usb_ports@) == ports_of(readers@.subrange(0, i as int), product_id@),
        decreases readers@.len() - i,
    {
        proof {
            assert(readers@.subrange(0, i + 1).drop_last() =~= readers@.subrange(0, i as int));
        }
        if str_eq(readers[i].product_id.as_str(), product_id) {
            usb_ports.push(readers[i].usb_port.clone());
            assert(views(usb_ports@) =~= ports_of(readers@.subrange(0, i as int), product_id@).push(
                readers@[i as int].usb_port@,
            ));
        }
        i += 1;
    }
    assert(readers@.subrange(0, readers@.len() as int) =~= readers@);
    let sorted_ports = sort_strings(usb_ports);

    let (model, upper) = match pcsc_product_names(product_id) {
        Some(names) => names,
        None => {
            return PortMapping { pairs: Vec::new(), count_mismatch: false };
        },
    };

    let mut matched: Vec<String> = Vec::new();
    let mut k: usize = 0;
    while k < pcsc_reader_names.len()
        invariant
            k <= pcsc_reader_names@.len(),
            views(matched@) == names_matching(
                views(pcsc_reader_names@.subrange(0, k as int)),
                model@,
                upper@,
            ),
        decreases pcsc_reader_names@.len() - k,
    {
        let name = &pcsc_reader_names[k];
        proof {
            assert(views(pcsc_reader_names@.subrange(0, k + 1)).drop_last() =~= views(
                pcsc_reader_names@.subrange(0, k as int),
            ));
            assert(views(pcsc_reader_names@.subrange(0, k + 1)).last() == name@);
        }
        if str_contains(name.as_str(), model) || str_contains(name.as_str(), upper) {
            matched.push(name.clone());
            assert(views(matched@) =~= names_matching(
                views(pcsc_reader_names@.subrange(0, k as int)),
                model@,
                upper@,
            ).push(name@));
        }
        k += 1;
    }
    assert(pcsc_reader_names@.subrange(0, pcsc_reader_names@.len() as int) =~= pcsc_reader_names@);
    let sorted_names = sort_strings(matched);
    let r = pair_by_index(&sorted_names, &sorted_ports);
    assert(pairs_by_index(pair_views(r.pairs@), views(sorted_names@), views(sorted_ports@)));
    r
}

/// The reader model that a PC/SC reader name mentions.
pub open spec fn reader_type_of(name: Seq<char>) -> Seq<char> {
    if has_substring(name, "RC-S300"@) || has_substring(name, "S300"@) {
        "RC-S300"@
    } else if has_substring(name, "RC-S320"@) || has_substring(name, "S320"@) {
        "RC-S320"@
    } else if has_substring(name, "RC-S330"@) || has_substring(name, "S330"@) {
        "RC-S330"@
    } else {
        "Unknown"@
    }
}

/// Extract the reader model from a PC/SC reader name, e.g.
/// "Sony FeliCa Port/PaSoRi RC-S300/P 00 00" gives "RC-S300".
pub fn reader_type_from_pcsc_name(name: &str) -> (r: &'static str)
    ensures
        r@ == reader_type_of(name@),
{
    if str_contains(name, "RC-S300") || str_contains(name, "S300") {
        "RC-S300"
    } else if str_contains(name, "RC-S320") || str_contains(name, "S320") {
        "RC-S320"
    } else if str_contains(name, "RC-S330") || str_contains(name, "S330") {
        "RC-S330"
    } else {
        "Unknown"
    }
}

} // verus!
