//! System telemetry: the decisions and parsing behind the monitor pane
//! (process names, CPU labels, GPU vendor, model, clocks and memory).

use vstd::prelude::*;

use crate::text::{
    all_digits, ascii_lower, concat2, concat3, contains_char, contains_seq, contains_str,
    decode_strict, is_blank, is_blank_str, lines_of,
    owned, parse_u64, parse_u64_spec, split_lines, split_on, split_on_char, split_words,
    starts_with_str, str_eq, strings_view, to_ascii_lower, trim, trim_str, words,
};

verus! {

/// What the monitor knows of the GPU, besides its temperature.
#[derive(Debug, Clone)]
pub struct GpuInfo {
    pub model: String,
    pub vendor: String,
    pub vram_total_mb: Option<u64>,
    pub vram_used_mb: Option<u64>,
    pub core_clock_mhz: Option<u64>,
    pub memory_clock_mhz: Option<u64>,
    pub source: String,
}

impl Default for GpuInfo {
    /// No GPU detected yet.
    fn default() -> (g: Self)
        ensures
            g.model@ == "Not detected"@,
            g.vendor@ == "Unknown"@,
            g.vram_total_mb is None,
            g.vram_used_mb is None,
            g.core_clock_mhz is None,
            g.memory_clock_mhz is None,
            g.source@ == "sysinfo/sysfs"@,
    {
        GpuInfo {
            model: owned("Not detected"),
            vendor: owned("Unknown"),
            vram_total_mb: None,
            vram_used_mb: None,
            core_clock_mhz: None,
            memory_clock_mhz: None,
            source: owned("sysinfo/sysfs"),
        }
    }
}

/// Whole mebibytes in a byte count.
pub fn bytes_to_mb(bytes: u64) -> (mb: u64)
    ensures
        mb == bytes / 1024 / 1024,
{
    bytes / 1024 / 1024
}

/// The trimmed text, or nothing when it is blank.
pub open spec fn non_empty_spec(value: Seq<char>) -> Option<Seq<char>> {
    if is_blank(value) {
        None
    } else {
        Some(trim(value))
    }
}

/// An optional `String`, taken as characters.
pub open spec fn opt_view(o: Option<String>) -> Option<Seq<char>> {
    match o {
        Some(s) => Some(s@),
        None => None,
    }
}

/// The trimmed text, or nothing when it is blank.
pub fn non_empty(value: &str) -> (r: Option<String>)
    ensures
        opt_view(r) == non_empty_spec(value@),
{
    let t = trim_str(value);
    if t.unicode_len() == 0 {
        None
    } else {
        Some(owned(t))
    }
}

/// The name shown for a process: its own, or `[unknown]` when blank.
pub fn process_name(name: &str) -> (r: String)
    ensures
        is_blank(name@) ==> r@ == "[unknown]"@,
        !is_blank(name@) ==> r@ == name@,
{
    if is_blank_str(name) {
        owned("[unknown]")
    } else {
        owned(name)
    }
}

/// The first non-blank label among the CPUs (trimmed), else the global
/// CPU's label, else the fallback.
pub open spec fn pick_label_spec(labels: Seq<Seq<char>>, global: Seq<char>, fallback: Seq<char>) -> Seq<char>
    decreases labels.len(),
{
    if labels.len() == 0 {
        if is_blank(global) {
            fallback
        } else {
            trim(global)
        }
    } else if !is_blank(labels[0]) {
        trim(labels[0])
    } else {
        pick_label_spec(labels.drop_first(), global, fallback)
    }
}

/// The CPU brand or vendor shown (see `pick_label_spec`).
pub fn pick_label(labels: &Vec<String>, global: &str, fallback: &str) -> (r: String)
    ensures
        r@ == pick_label_spec(strings_view(labels@), global@, fallback@),
{
    let n = labels.len();
    let ghost ls = strings_view(labels@);
    let mut i: usize = 0;
    assert(ls.skip(0) =~= ls);
    while i < n
        invariant
            i <= n,
            n == labels@.len(),
            ls == strings_view(labels@),
            pick_label_spec(ls.skip(i as int), global@, fallback@) == pick_label_spec(
                ls,
                global@,
                fallback@,
            ),
        decreases n - i,
    {
        assert(ls.skip(i as int)[0] == labels@[i as int]@);
        assert(ls.skip(i as int).drop_first() =~= ls.skip(i + 1));
        if !is_blank_str(labels[i].as_str()) {
            return owned(trim_str(labels[i].as_str()));
        }
        i = i + 1;
    }
    assert(ls.skip(n as int).len() == 0);
    if is_blank_str(global) {
        owned(fallback)
    } else {
        owned(trim_str(global))
    }
}

/// The highest frequency among the CPUs, or the global CPU's when there are none.
pub fn max_frequency(freqs: &Vec<u64>, global: u64) -> (r: u64)
    ensures
        freqs@.len() == 0 ==> r == global,
        freqs@.len() > 0 ==> freqs@.contains(r) && forall|i: int|
            0 <= i < freqs@.len() ==> #[trigger] freqs@[i] <= r,
{
    let n = freqs.len();
    if n == 0 {
        return global;
    }
    let mut best = freqs[0];
    let mut i: usize = 1;
    while i < n
        invariant
            1 <= i <= n,
            n == freqs@.len(),
            freqs@.contains(best),
            forall|k: int| 0 <= k < i ==> #[trigger] freqs@[k] <= best,
        decreases n - i,
    {
        if freqs[i] > best {
            best = freqs[i];
        }
        i = i + 1;
    }
    best
}

/// A DRM entry that is a graphics card itself (`cardN`, not a connector
/// such as `card0-HDMI-A-1`).
pub fn is_gpu_card(name: &str) -> (b: bool)
    ensures
        b == ("card"@.is_prefix_of(name@) && !name@.contains('-')),
{
    starts_with_str(name, "card") && !contains_char(name, '-')
}

/// The vendor for a PCI vendor id (trimmed, case-insensitive).
pub open spec fn vendor_name_spec(vendor_id: Seq<char>) -> Seq<char> {
    let id = ascii_lower(trim(vendor_id));
    if id == "0x1002"@ {
        "AMD"@
    } else if id == "0x10de"@ {
        "NVIDIA"@
    } else if id == "0x8086"@ {
        "Intel"@
    } else {
        "Unknown"@
    }
}

/// The vendor for a PCI vendor id (see `vendor_name_spec`).
pub fn gpu_vendor_name(vendor_id: &str) -> (r: &'static str)
    ensures
        r@ == vendor_name_spec(vendor_id@),
{
    let id = to_ascii_lower(trim_str(vendor_id));
    if str_eq(id.as_str(), "0x1002") {
        "AMD"
    } else if str_eq(id.as_str(), "0x10de") {
        "NVIDIA"
    } else if str_eq(id.as_str(), "0x8086") {
        "Intel"
    } else {
        "Unknown"
    }
}

/// A card is described by its vendor and device ids; one without either is
/// skipped. The vendor is named (see `vendor_name_spec`); a missing id reads
/// as empty.
pub fn card_identity(vendor_id: Option<String>, device_id: Option<String>) -> (r: Option<(String, String)>)
    ensures
        (vendor_id is None && device_id is None) <==> r is None,
        r matches Some((vendor, device)) ==> vendor@ == vendor_name_spec(
            match vendor_id {
                Some(v) => v@,
                None => Seq::<char>::empty(),
            },
        ) && device@ == (match device_id {
            Some(d) => d@,
            None => Seq::<char>::empty(),
        }),
{
    if vendor_id.is_none() && device_id.is_none() {
        return None;
    }
    let vendor_id = match vendor_id {
        Some(v) => v,
        None => String::new(),
    };
    let device_id = match device_id {
        Some(d) => d,
        None => String::new(),
    };
    Some((owned(gpu_vendor_name(vendor_id.as_str())), device_id))
}

/// `nvidia-smi` is consulted for NVIDIA cards only.
pub fn uses_nvidia_smi(vendor: &str) -> (b: bool)
    ensures
        b == (vendor@ == "NVIDIA"@),
{
    str_eq(vendor, "NVIDIA")
}

/// The model shown when no source names it: the vendor, with the device id
/// when there is one.
pub fn gpu_model_fallback(vendor: &str, device_id: &str) -> (r: String)
    ensures
        device_id@.len() == 0 ==> r@ == vendor@,
        device_id@.len() > 0 ==> r@ == vendor@ + " GPU "@ + device_id@,
{
    if device_id.unicode_len() == 0 {
        owned(vendor)
    } else {
        concat3(vendor, " GPU ", device_id)
    }
}

/// What follows `prefix` on the first line that starts with it.
pub open spec fn after_prefix(ls: Seq<Seq<char>>, prefix: Seq<char>) -> Option<Seq<char>>
    decreases ls.len(),
{
    if ls.len() == 0 {
        None
    } else if prefix.is_prefix_of(ls[0]) {
        Some(ls[0].skip(prefix.len() as int))
    } else {
        after_prefix(ls.drop_first(), prefix)
    }
}

fn find_after_prefix(data: &str, prefix: &str) -> (r: Option<String>)
    ensures
        opt_view(r) == after_prefix(lines_of(data@), prefix@),
{
    let ls = split_lines(data);
    let ghost lv = strings_view(ls@);
    let n = ls.len();
    let m = prefix.unicode_len();
    let mut i: usize = 0;
    assert(lv.skip(0) =~= lv);
    while i < n
        invariant
            i <= n,
            n == ls@.len(),
            lv == strings_view(ls@),
            lv == lines_of(data@),
            m == prefix@.len(),
            after_prefix(lv.skip(i as int), prefix@) == after_prefix(lv, prefix@),
        decreases n - i,
    {
        assert(lv.skip(i as int)[0] == ls@[i as int]@);
        assert(lv.skip(i as int).drop_first() =~= lv.skip(i + 1));
        if starts_with_str(ls[i].as_str(), prefix) {
            let l = ls[i].as_str();
            let k = l.unicode_len();
            let rest = l.substring_char(m, k);
            assert(l@.subrange(m as int, k as int) =~= l@.skip(m as int));
            return Some(owned(rest));
        }
        i = i + 1;
    }
    assert(lv.skip(n as int).len() == 0);
    None
}

/// The device name from a `uevent` file: `PCI <id>` for its `PCI_ID=` line.
pub fn parse_uevent_name(data: &str) -> (r: Option<String>)
    ensures
        opt_view(r) == (match after_prefix(lines_of(data@), "PCI_ID="@) {
            Some(id) => Some("PCI "@ + id),
            None => None,
        }),
{
    match find_after_prefix(data, "PCI_ID=") {
        Some(id) => Some(concat2("PCI ", id.as_str())),
        None => None,
    }
}

/// The PCI slot from a `uevent` file (its `PCI_SLOT_NAME=` line).
pub fn parse_uevent_slot(data: &str) -> (r: Option<String>)
    ensures
        opt_view(r) == after_prefix(lines_of(data@), "PCI_SLOT_NAME="@),
{
    find_after_prefix(data, "PCI_SLOT_NAME=")
}

/// Position of the last `": "` in a line, if any.
pub open spec fn last_colon_space(l: Seq<char>) -> Option<int>
    decreases l.len(),
{
    if l.len() < 2 {
        None
    } else if l[l.len() - 2] == ':' && l[l.len() - 1] == ' ' {
        Some(l.len() - 2)
    } else {
        last_colon_space(l.drop_last())
    }
}

/// The model `lspci -nn` reports: the trimmed text after the last `": "`
/// of its first line, when that is not blank.
pub open spec fn lspci_model_spec(stdout: Seq<char>) -> Option<Seq<char>> {
    let ls = lines_of(stdout);
    if ls.len() == 0 {
        None
    } else {
        match last_colon_space(ls[0]) {
            Some(p) => if is_blank(ls[0].skip(p + 2)) {
                None
            } else {
                Some(trim(ls[0].skip(p + 2)))
            },
            None => None,
        }
    }
}

proof fn lemma_last_colon_space(l: Seq<char>, j: int)
    requires
        2 <= j <= l.len(),
        forall|k: int| j - 1 <= k < l.len() - 1 ==> !(#[trigger] l[k] == ':' && l[k + 1] == ' '),
    ensures
        last_colon_space(l) == last_colon_space(l.subrange(0, j)),
    decreases l.len() - j,
{
    if j < l.len() {
        assert(!(l[l.len() - 2] == ':' && l[l.len() - 1] == ' '));
        assert forall|k: int| j - 1 <= k < l.drop_last().len() - 1 implies !(
        #[trigger] l.drop_last()[k] == ':' && l.drop_last()[k + 1] == ' ') by {
            assert(l.drop_last()[k] == l[k] && l.drop_last()[k + 1] == l[k + 1]);
        }
        lemma_last_colon_space(l.drop_last(), j);
        assert(l.drop_last().subrange(0, j) =~= l.subrange(0, j));
    } else {
        assert(l.subrange(0, j) =~= l);
    }
}

/// The model `lspci -nn` reports (see `lspci_model_spec`).
pub fn lspci_model_from(stdout: &str) -> (r: Option<String>)
    ensures
        opt_view(r) == lspci_model_spec(stdout@),
{
    let ls = split_lines(stdout);
    if ls.len() == 0 {
        return None;
    }
    let first = ls[0].as_str();
    let v = crate::text::to_chars(first);
    let n = v.len();
    if n < 2 {
        return None;
    }
    let mut j: usize = n;
    while j >= 2 && !(v[j - 2] == ':' && v[j - 1] == ' ')
        invariant
            1 <= j <= n,
            n == v@.len(),
            v@ == first@,
            forall|k: int| j - 1 <= k < n - 1 ==> !(#[trigger] v@[k] == ':' && v@[k + 1] == ' '),
        decreases j,
    {
        j = j - 1;
    }
    if j < 2 {
        proof {
            lemma_last_colon_space(first@, 2);
            let pre = first@.subrange(0, 2);
            assert(!(pre[0] == ':' && pre[1] == ' '));
            assert(last_colon_space(pre.drop_last()) is None);
        }
        return None;
    }
    proof {
        lemma_last_colon_space(first@, j as int);
        let pre = first@.subrange(0, j as int);
        assert(pre[pre.len() - 2] == ':' && pre[pre.len() - 1] == ' ');
    }
    let model = first.substring_char(j, n);
    assert(first@.subrange(j as int, n as int) =~= first@.skip(j as int));
    if is_blank_str(model) {
        None
    } else {
        Some(owned(trim_str(model)))
    }
}

/// A reading that may be reported as `N/A`: nothing when blank or `n/a` (in
/// any case), else the number, when it parses.
pub open spec fn optional_u64_spec(value: Seq<char>) -> Option<u64> {
    let v = trim(value);
    if ascii_lower(v) == "n/a"@ || v.len() == 0 {
        None
    } else {
        parse_u64_spec(v)
    }
}

/// A reading that may be reported as `N/A` (see `optional_u64_spec`).
pub fn parse_optional_u64(value: &str) -> (r: Option<u64>)
    ensures
        r == optional_u64_spec(value@),
{
    let v = trim_str(value);
    let lower = to_ascii_lower(v);
    if str_eq(lower.as_str(), "n/a") || v.unicode_len() == 0 {
        None
    } else {
        parse_u64(v)
    }
}

/// A number read from a sysfs file: the trimmed contents, when not blank,
/// parsed as a `u64`.
pub open spec fn u64_reading_spec(contents: Seq<char>) -> Option<u64> {
    if is_blank(contents) {
        None
    } else {
        parse_u64_spec(trim(contents))
    }
}

/// A number read from a sysfs file (see `u64_reading_spec`).
pub fn u64_reading(contents: &str) -> (r: Option<u64>)
    ensures
        r == u64_reading_spec(contents@),
{
    let t = trim_str(contents);
    if t.unicode_len() == 0 {
        None
    } else {
        parse_u64(t)
    }
}

/// The first word that parses as a number.
pub open spec fn first_number(ws: Seq<Seq<char>>) -> Option<u64>
    decreases ws.len(),
{
    if ws.len() == 0 {
        None
    } else if parse_u64_spec(ws[0]) is Some {
        parse_u64_spec(ws[0])
    } else {
        first_number(ws.drop_first())
    }
}

/// The first line that contains `*`, if any.
pub open spec fn first_starred(ls: Seq<Seq<char>>) -> Option<Seq<char>>
    decreases ls.len(),
{
    if ls.len() == 0 {
        None
    } else if ls[0].contains('*') {
        Some(ls[0])
    } else {
        first_starred(ls.drop_first())
    }
}

/// The active clock in a DPM table (`pp_dpm_sclk`, `pp_dpm_mclk`): on the
/// first line marked `*`, the first whitespace-separated word that is a number.
pub open spec fn dpm_clock_spec(contents: Seq<char>) -> Option<u64> {
    if is_blank(contents) {
        None
    } else {
        match first_starred(lines_of(trim(contents))) {
            Some(l) => first_number(words(l)),
            None => None,
        }
    }
}

/// The active clock in a DPM table (see `dpm_clock_spec`).
pub fn active_dpm_clock(contents: &str) -> (r: Option<u64>)
    ensures
        r == dpm_clock_spec(contents@),
{
    let t = trim_str(contents);
    if t.unicode_len() == 0 {
        return None;
    }
    let ls = split_lines(t);
    let ghost lv = strings_view(ls@);
    let n = ls.len();
    let mut i: usize = 0;
    assert(lv.skip(0) =~= lv);
    while i < n
        invariant
            i <= n,
            n == ls@.len(),
            lv == strings_view(ls@),
            lv == lines_of(t@),
            t@ == trim(contents@),
            !is_blank(contents@),
            first_starred(lv.skip(i as int)) == first_starred(lv),
        decreases n - i,
    {
        assert(lv.skip(i as int)[0] == ls@[i as int]@);
        assert(lv.skip(i as int).drop_first() =~= lv.skip(i + 1));
        if contains_char(ls[i].as_str(), '*') {
            let ws = split_words(ls[i].as_str());
            let ghost wv = strings_view(ws@);
            let m = ws.len();
            let mut k: usize = 0;
            assert(first_starred(lv.skip(i as int)) == Some(lv[i as int]));
            assert(wv.skip(0) =~= wv);
            while k < m
                invariant
                    k <= m,
                    m == ws@.len(),
                    wv == strings_view(ws@),
                    first_number(wv) == dpm_clock_spec(contents@),
                    first_number(wv.skip(k as int)) == first_number(wv),
                decreases m - k,
            {
                assert(wv.skip(k as int)[0] == ws@[k as int]@);
                assert(wv.skip(k as int).drop_first() =~= wv.skip(k + 1));
                let parsed = parse_u64(ws[k].as_str());
                if parsed.is_some() {
                    return parsed;
                }
                k = k + 1;
            }
            assert(wv.skip(m as int).len() == 0);
            return None;
        }
        i = i + 1;
    }
    assert(lv.skip(n as int).len() == 0);
    None
}


/// The `source` of a GPU read from sysfs: `linux sysfs <card>`.
pub fn sysfs_source(card: &str) -> (r: String)
    ensures
        r@ == "linux sysfs "@ + card@,
{
    concat2("linux sysfs ", card)
}

/// The `source` of an NVIDIA GPU when `nvidia-smi` gave nothing.
pub fn without_nvidia_smi(source: &str) -> (r: String)
    ensures
        r@ == source@ + "; nvidia-smi unavailable"@,
{
    concat2(source, "; nvidia-smi unavailable")
}

/// An optional number: the driver's when it has one, else the base's.
pub open spec fn or_spec(driver: Option<u64>, base: Option<u64>) -> Option<u64> {
    match driver {
        Some(v) => Some(v),
        None => base,
    }
}

/// Combines what sysfs found with what the driver reports: the driver's model
/// when it is not blank, each reading the driver has, and the driver's source;
/// the vendor stays.
pub fn merge_gpu_info(base: GpuInfo, driver: GpuInfo) -> (r: GpuInfo)
    ensures
        r.model@ == (if is_blank(driver.model@) {
            base.model@
        } else {
            driver.model@
        }),
        r.vendor@ == base.vendor@,
        r.vram_total_mb == or_spec(driver.vram_total_mb, base.vram_total_mb),
        r.vram_used_mb == or_spec(driver.vram_used_mb, base.vram_used_mb),
        r.core_clock_mhz == or_spec(driver.core_clock_mhz, base.core_clock_mhz),
        r.memory_clock_mhz == or_spec(driver.memory_clock_mhz, base.memory_clock_mhz),
        r.source@ == driver.source@,
{
    let model = if is_blank_str(driver.model.as_str()) {
        base.model
    } else {
        driver.model
    };
    GpuInfo {
        model,
        vendor: base.vendor,
        vram_total_mb: match driver.vram_total_mb {
            Some(v) => Some(v),
            None => base.vram_total_mb,
        },
        vram_used_mb: match driver.vram_used_mb {
            Some(v) => Some(v),
            None => base.vram_used_mb,
        },
        core_clock_mhz: match driver.core_clock_mhz {
            Some(v) => Some(v),
            None => base.core_clock_mhz,
        },
        memory_clock_mhz: match driver.memory_clock_mhz {
            Some(v) => Some(v),
            None => base.memory_clock_mhz,
        },
        source: driver.source,
    }
}

/// The first line that is not blank.
pub open spec fn first_non_blank(ls: Seq<Seq<char>>) -> Option<Seq<char>>
    decreases ls.len(),
{
    if ls.len() == 0 {
        None
    } else if !is_blank(ls[0]) {
        Some(ls[0])
    } else {
        first_non_blank(ls.drop_first())
    }
}

/// The comma-separated fields of a line, each trimmed.
pub open spec fn csv_fields(l: Seq<char>) -> Seq<Seq<char>> {
    split_on(l, ',').map_values(|f: Seq<char>| trim(f))
}

/// What `nvidia-smi --query-gpu=name,memory.total,memory.used,
/// temperature.gpu,clocks.current.graphics,clocks.current.memory
/// --format=csv,noheader,nounits` reports, temperature aside.
pub struct NvidiaReading {
    pub gpu: GpuInfo,
    /// The temperature field, as text.
    pub temperature: String,
}

/// The reading in `nvidia-smi` output: its first non-blank line must hold
/// at least six fields: name, total and used memory, temperature, core and
/// memory clock.
pub open spec fn nvidia_reading_ok(stdout: Seq<char>, r: NvidiaReading) -> bool {
    match first_non_blank(lines_of(stdout)) {
        Some(l) => {
            let f = csv_fields(l);
            &&& f.len() >= 6
            &&& r.gpu.model@ == f[0]
            &&& r.gpu.vendor@ == "NVIDIA"@
            &&& r.gpu.vram_total_mb == optional_u64_spec(f[1])
            &&& r.gpu.vram_used_mb == optional_u64_spec(f[2])
            &&& r.temperature@ == f[3]
            &&& r.gpu.core_clock_mhz == optional_u64_spec(f[4])
            &&& r.gpu.memory_clock_mhz == optional_u64_spec(f[5])
            &&& r.gpu.source@ == "nvidia-smi"@
        },
        None => false,
    }
}

/// Whether `nvidia-smi` output holds a reading (see `nvidia_reading_ok`).
pub open spec fn has_nvidia_reading(stdout: Seq<char>) -> bool {
    match first_non_blank(lines_of(stdout)) {
        Some(l) => csv_fields(l).len() >= 6,
        None => false,
    }
}

/// The model in the raw output of `lspci -nn`: none unless it is valid
/// UTF-8, else as `lspci_model_from` reads the decoded text.
pub fn lspci_model_from_output(stdout: Vec<u8>) -> (r: Option<String>)
    ensures
        !vstd::utf8::valid_utf8(stdout@) ==> r is None,
        vstd::utf8::valid_utf8(stdout@) ==> opt_view(r) == lspci_model_spec(
            vstd::utf8::decode_utf8(stdout@),
        ),
{
    match decode_strict(stdout) {
        Some(text) => lspci_model_from(text.as_str()),
        None => None,
    }
}

/// Reads the `nvidia-smi` query output (see `nvidia_reading_ok`).
pub fn parse_nvidia_smi(stdout: &str) -> (r: Option<NvidiaReading>)
    ensures
        r is Some <==> has_nvidia_reading(stdout@),
        r matches Some(reading) ==> nvidia_reading_ok(stdout@, reading),
{
    let ls = split_lines(stdout);
    let ghost lv = strings_view(ls@);
    let n = ls.len();
    let mut i: usize = 0;
    assert(lv.skip(0) =~= lv);
    while i < n && is_blank_str(ls[i].as_str())
        invariant
            i <= n,
            n == ls@.len(),
            lv == strings_view(ls@),
            lv == lines_of(stdout@),
            first_non_blank(lv.skip(i as int)) == first_non_blank(lv),
        decreases n - i,
    {
        assert(lv.skip(i as int)[0] == ls@[i as int]@);
        assert(lv.skip(i as int).drop_first() =~= lv.skip(i + 1));
        i = i + 1;
    }
    if i == n {
        assert(lv.skip(n as int).len() == 0);
        return None;
    }
    assert(lv.skip(i as int)[0] == ls@[i as int]@);
    let line = ls[i].as_str();
    let pieces = split_on_char(line, ',');
    let m = pieces.len();
    let ghost fv = csv_fields(line@);
    let mut fields: Vec<&str> = Vec::new();
    let mut k: usize = 0;
    while k < m
        invariant
            k <= m,
            m == pieces@.len(),
            strings_view(pieces@) == split_on(line@, ','),
            fv == csv_fields(line@),
            fields@.len() == k,
            forall|j: int| 0 <= j < k ==> (#[trigger] fields@[j])@ == fv[j],
        decreases m - k,
    {
        fields.push(trim_str(pieces[k].as_str()));
        k = k + 1;
    }
    if m < 6 {
        return None;
    }
    let gpu = GpuInfo {
        model: owned(fields[0]),
        vendor: owned("NVIDIA"),
        vram_total_mb: parse_optional_u64(fields[1]),
        vram_used_mb: parse_optional_u64(fields[2]),
        core_clock_mhz: parse_optional_u64(fields[4]),
        memory_clock_mhz: parse_optional_u64(fields[5]),
        source: owned("nvidia-smi"),
    };
    Some(NvidiaReading { gpu, temperature: owned(fields[3]) })
}

/// The reading in the raw output of the `nvidia-smi` query: none unless it
/// is valid UTF-8, else as `parse_nvidia_smi` reads the decoded text.
pub fn parse_nvidia_smi_output(stdout: Vec<u8>) -> (r: Option<NvidiaReading>)
    ensures
        !vstd::utf8::valid_utf8(stdout@) ==> r is None,
        vstd::utf8::valid_utf8(stdout@) ==> (r is Some <==> has_nvidia_reading(
            vstd::utf8::decode_utf8(stdout@),
        )),
        vstd::utf8::valid_utf8(stdout@) ==> (r matches Some(reading) ==> nvidia_reading_ok(
            vstd::utf8::decode_utf8(stdout@),
            reading,
        )),
{
    match decode_strict(stdout) {
        Some(text) => parse_nvidia_smi(text.as_str()),
        None => None,
    }
}

/// The GPU core clock: the active `pp_dpm_sclk` level, else `gt_cur_freq_mhz`,
/// else `gt_act_freq_mhz`.
pub fn core_clock(dpm_sclk: Option<u64>, gt_cur: Option<u64>, gt_act: Option<u64>) -> (r: Option<u64>)
    ensures
        r == or_spec(dpm_sclk, or_spec(gt_cur, gt_act)),
{
    match dpm_sclk {
        Some(v) => Some(v),
        None => match gt_cur {
            Some(v) => Some(v),
            None => gt_act,
        },
    }
}

/// A DRM entry as read: its name, and the contents of its device's `vendor`
/// and `device` files when they could be read.
#[derive(Debug, Clone)]
pub struct DrmEntry {
    pub name: String,
    pub vendor_id: Option<String>,
    pub device_id: Option<String>,
}

/// An entry whose GPU the monitor reports: a card itself, with a vendor or
/// a device id.
pub open spec fn is_usable_card(e: DrmEntry) -> bool {
    "card"@.is_prefix_of(e.name@) && !e.name@.contains('-') && (e.vendor_id is Some
        || e.device_id is Some)
}

/// The entry the monitor reports on: the first usable card in the order the
/// directory lists them, if any (none leaves the GPU undetected).
pub fn first_card(entries: &Vec<DrmEntry>) -> (r: Option<usize>)
    ensures
        match r {
            Some(i) => i < entries@.len() && is_usable_card(entries@[i as int]) && forall|k: int|
                0 <= k < i ==> !is_usable_card(#[trigger] entries@[k]),
            None => forall|k: int| 0 <= k < entries@.len() ==> !is_usable_card(#[trigger] entries@[k]),
        },
{
    proof {
        reveal_strlit("card");
    }
    let n = entries.len();
    let mut i: usize = 0;
    while i < n
        invariant
            i <= n,
            n == entries@.len(),
            forall|k: int| 0 <= k < i ==> !is_usable_card(#[trigger] entries@[k]),
        decreases n - i,
    {
        let e = &entries[i];
        if is_gpu_card(e.name.as_str()) && (e.vendor_id.is_some() || e.device_id.is_some()) {
            return Some(i);
        }
        i = i + 1;
    }
    None
}

/// A sensor label that names the CPU package.
pub open spec fn is_package_label(l: Seq<char>) -> bool {
    contains_seq(ascii_lower(l), "package"@)
}

/// The temperature row shown for the CPU, given the rows' labels: the first
/// whose lowercased label contains "package", else the first row, else none.
pub fn cpu_temp_row(labels: &Vec<String>) -> (r: Option<usize>)
    ensures
        match r {
            Some(i) => i < labels@.len() && ((is_package_label(labels@[i as int]@) && forall|k: int|
                0 <= k < i ==> !is_package_label(#[trigger] labels@[k]@)) || (i == 0 && forall|k: int|
                0 <= k < labels@.len() ==> !is_package_label(#[trigger] labels@[k]@))),
            None => labels@.len() == 0,
        },
{
    let package = "package";
    proof {
        reveal_strlit("package");
    }
    let n = labels.len();
    let mut i: usize = 0;
    while i < n
        invariant
            i <= n,
            n == labels@.len(),
            package@ == "package"@,
            forall|k: int| 0 <= k < i ==> !is_package_label(#[trigger] labels@[k]@),
        decreases n - i,
    {
        let lower = to_ascii_lower(labels[i].as_str());
        if contains_str(lower.as_str(), package) {
            return Some(i);
        }
        i = i + 1;
    }
    if n > 0 {
        Some(0)
    } else {
        None
    }
}

/// A sensor label that looks like a GPU's.
pub open spec fn is_gpu_sensor_label(l: Seq<char>) -> bool {
    let lower = ascii_lower(l);
    contains_seq(lower, "gpu"@) || contains_seq(lower, "amdgpu"@) || contains_seq(lower, "nvidia"@)
}

/// The first sensor whose lowercased label contains "gpu", "amdgpu" or
/// "nvidia", if any.
pub fn gpu_sensor_row(labels: &Vec<String>) -> (r: Option<usize>)
    ensures
        match r {
            Some(i) => i < labels@.len() && is_gpu_sensor_label(labels@[i as int]@) && forall|k: int|
                0 <= k < i ==> !is_gpu_sensor_label(#[trigger] labels@[k]@),
            None => forall|k: int| 0 <= k < labels@.len() ==> !is_gpu_sensor_label(#[trigger] labels@[k]@),
        },
{
    let gpu = "gpu";
    let amdgpu = "amdgpu";
    let nvidia = "nvidia";
    proof {
        reveal_strlit("gpu");
        reveal_strlit("amdgpu");
        reveal_strlit("nvidia");
    }
    let n = labels.len();
    let mut i: usize = 0;
    while i < n
        invariant
            i <= n,
            n == labels@.len(),
            gpu@ == "gpu"@,
            amdgpu@ == "amdgpu"@,
            nvidia@ == "nvidia"@,
            forall|k: int| 0 <= k < i ==> !is_gpu_sensor_label(#[trigger] labels@[k]@),
        decreases n - i,
    {
        let lower = to_ascii_lower(labels[i].as_str());
        if contains_str(lower.as_str(), gpu) || contains_str(lower.as_str(), amdgpu) || contains_str(
            lower.as_str(),
            nvidia,
        ) {
            return Some(i);
        }
        i = i + 1;
    }
    None
}

} // verus!
