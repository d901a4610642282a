//! Host facts: memory, CPU, graphics adapters, virtualization, GPU preference.
use vstd::prelude::*;
use crate::case::{lowercase, to_lowercase};
use crate::number::{decimal, decimal_exec};
use crate::paths::{join, join_path};
use crate::text::{
    chars_of, contains, contains_str, eq_str, find_char, find_char_exec, is_control, join as
    join_text, join_exec, lines, push_chars, push_str, slice_of, split_lines, string_of, trim,
    trim_exec, views,
};
use crate::types::{opt_string_view, CommandResult, GpuInfo, HypervisorStatus};

verus! {

// ───────────────────────────── memory and CPU ─────────────────────────────

/// Bytes in whole mebibytes.
pub fn bytes_to_mb(bytes: u64) -> (r: u64)
    ensures
        r == bytes / 1048576u64,
{
    bytes / (1024 * 1024)
}

/// The CPU model shown: the first CPU's brand, or `Unknown CPU`.
pub fn cpu_model_name(first_brand: Option<String>) -> (r: String)
    ensures
        r@ == (match first_brand {
            Some(b) => b@,
            None => "Unknown CPU"@,
        }),
{
    match first_brand {
        Some(b) => b,
        None => String::from_str("Unknown CPU"),
    }
}

// ───────────────────────────── adapters from WMI (Windows) ─────────────────────────────

/// One `Win32_VideoController` object: its `Name` when it is a string, its
/// `AdapterRAM` when it is an unsigned number.
pub struct WmiAdapter {
    pub name: Option<String>,
    pub adapter_ram: Option<u64>,
}

/// An adapter's plain values: its name and RAM.
pub open spec fn adapter_view(a: WmiAdapter) -> (Option<Seq<char>>, Option<u64>) {
    (opt_string_view(a.name), a.adapter_ram)
}

/// The plain values of the adapters.
pub open spec fn adapter_views(v: Seq<WmiAdapter>) -> Seq<(Option<Seq<char>>, Option<u64>)> {
    v.map_values(|a: WmiAdapter| adapter_view(a))
}

/// What a JSON text is, read for its adapters: text that does not parse, one of the
/// scalar kinds, an array (each element read as an adapter) or an object (read as one
/// adapter).
pub enum WmiJson {
    Invalid,
    Null,
    Bool,
    Number,
    Text,
    List(Vec<WmiAdapter>),
    One(WmiAdapter),
}

/// The plain values of a `WmiJson`.
pub enum WmiJsonView {
    Invalid,
    Null,
    Bool,
    Number,
    Text,
    List(Seq<(Option<Seq<char>>, Option<u64>)>),
    One((Option<Seq<char>>, Option<u64>)),
}

impl View for WmiJson {
    type V = WmiJsonView;

    open spec fn view(&self) -> WmiJsonView {
        match self {
            WmiJson::Invalid => WmiJsonView::Invalid,
            WmiJson::Null => WmiJsonView::Null,
            WmiJson::Bool => WmiJsonView::Bool,
            WmiJson::Number => WmiJsonView::Number,
            WmiJson::Text => WmiJsonView::Text,
            WmiJson::List(v) => WmiJsonView::List(adapter_views(v@)),
            WmiJson::One(a) => WmiJsonView::One(adapter_view(*a)),
        }
    }
}

/// What `serde_json::from_str` makes of a text as a `serde_json::Value`, each array
/// element or the object read by its `Name` (when a string) and `AdapterRAM` (when an
/// integer from 0 to `u64::MAX`).
pub uninterp spec fn wmi_json(text: Seq<char>) -> WmiJsonView;

/// Calls `serde_json::from_str` for a `serde_json::Value` and converts it, one arm per
/// variant: an array's elements and an object each read by `Name` (`as_str`) and
/// `AdapterRAM` (`as_u64`). The result is named, not stated: JSON parsing is not written
/// out here.
#[verifier::external_body]
fn parse_wmi_json(text: &str) -> (r: WmiJson)
    ensures
        r@ == wmi_json(text@),
{
    let read = |g: &serde_json::Value| WmiAdapter { name: g["Name"].as_str().map(String::from), adapter_ram: g["AdapterRAM"].as_u64() };
    match serde_json::from_str(text) {
        Err(_) => WmiJson::Invalid,
        Ok(serde_json::Value::Null) => WmiJson::Null,
        Ok(serde_json::Value::Bool(_)) => WmiJson::Bool,
        Ok(serde_json::Value::Number(_)) => WmiJson::Number,
        Ok(serde_json::Value::String(_)) => WmiJson::Text,
        Ok(serde_json::Value::Array(a)) => WmiJson::List(a.iter().map(read).collect()),
        Ok(o @ serde_json::Value::Object(_)) => WmiJson::One(read(&o)),
    }
}

/// The adapters a JSON text lists: all elements of an array, the one object, none for
/// anything else (text that is not JSON included).
pub open spec fn json_adapters(j: WmiJsonView) -> Seq<(Option<Seq<char>>, Option<u64>)> {
    match j {
        WmiJsonView::List(v) => v,
        WmiJsonView::One(a) => seq![a],
        _ => seq![],
    }
}

/// The adapters of a parsed JSON text.
pub fn adapters_of(j: WmiJson) -> (r: Vec<WmiAdapter>)
    ensures
        adapter_views(r@) == json_adapters(j@),
{
    match j {
        WmiJson::List(v) => v,
        WmiJson::One(a) => {
            let ghost av = adapter_view(a);
            let mut r: Vec<WmiAdapter> = Vec::new();
            r.push(a);
            assert(adapter_views(r@) =~= seq![av]);
            r
        },
        _ => {
            let r: Vec<WmiAdapter> = Vec::new();
            assert(adapter_views(r@) =~= seq![]);
            r
        },
    }
}

/// A character stripped from the ends of an adapter name: a control character or a
/// byte-order mark.
pub open spec fn is_name_junk(c: char) -> bool {
    is_control(c) || c == '\u{feff}'
}

pub open spec fn junk_start(s: Seq<char>, i: int) -> int
    decreases s.len() - i,
{
    if 0 <= i < s.len() && is_name_junk(s[i]) {
        junk_start(s, i + 1)
    } else {
        i
    }
}

pub open spec fn junk_end(s: Seq<char>, lo: int, j: int) -> int
    decreases j,
{
    if 0 < j && lo < j && j <= s.len() && is_name_junk(s[j - 1]) {
        junk_end(s, lo, j - 1)
    } else {
        j
    }
}

/// `s.trim_matches(|c| c.is_control() || c == '\u{feff}')`.
pub open spec fn trim_junk(s: Seq<char>) -> Seq<char> {
    let a = junk_start(s, 0);
    s.subrange(a, junk_end(s, a, s.len() as int))
}

fn trim_junk_exec(s: &Vec<char>) -> (r: Vec<char>)
    ensures
        r@ == trim_junk(s@),
{
    let mut a: usize = 0;
    while a < s.len() && is_name_junk_exec(s[a])
        invariant
            a <= s.len(),
            junk_start(s@, 0) == junk_start(s@, a as int),
        decreases s.len() - a,
    {
        a += 1;
    }
    let mut b: usize = s.len();
    while b > a && is_name_junk_exec(s[b - 1])
        invariant
            a <= b <= s.len(),
            junk_start(s@, 0) == a,
            junk_end(s@, a as int, s@.len() as int) == junk_end(s@, a as int, b as int),
        decreases b,
    {
        b -= 1;
    }
    slice_of(s, a, b)
}

fn is_name_junk_exec(c: char) -> (r: bool)
    ensures
        r == is_name_junk(c),
{
    let u = c as u32;
    u <= 0x1f || (0x7f <= u && u <= 0x9f) || c == '\u{feff}'
}

/// The text handed to the JSON parser: leading byte-order marks removed, then trimmed.
pub open spec fn wmi_json_text(raw: Seq<char>) -> Seq<char> {
    trim(crate::text::trim_start_matches(raw, seq!['\u{feff}']))
}

pub fn wmi_json_body(raw: &str) -> (r: String)
    ensures
        r@ == wmi_json_text(raw@),
{
    let mut bom: Vec<char> = Vec::new();
    bom.push('\u{feff}');
    let v = crate::text::trim_start_matches_exec(&chars_of(raw), &bom);
    assert(bom@ =~= seq!['\u{feff}']);
    string_of(&trim_exec(&v))
}

/// A name of a dedicated (discrete) adapter, by vendor or brand word.
pub open spec fn names_dedicated_gpu(lower: Seq<char>) -> bool {
    contains(lower, "nvidia"@) || contains(lower, "amd"@) || contains(lower, "radeon"@) || contains(
        lower,
        "geforce"@,
    ) || contains(lower, "rtx"@) || contains(lower, "gtx"@)
}

/// The adapter's shown name: `Unknown GPU` without one, control characters and BOMs
/// stripped from the ends, then trimmed.
pub open spec fn adapter_name(name: Option<Seq<char>>) -> Seq<char> {
    trim(
        trim_junk(
            match name {
                Some(n) => n,
                None => "Unknown GPU"@,
            },
        ),
    )
}

/// The video memory shown: `N MB` for a known non-zero size, else `Unknown`.
pub open spec fn vram_text(ram: Option<u64>) -> Seq<char> {
    let bytes = match ram {
        Some(b) => b,
        None => 0,
    };
    if bytes > 0 {
        decimal((bytes / 1048576u64) as nat) + " MB"@
    } else {
        "Unknown"@
    }
}

/// The GPU entry of adapter number `index`.
pub fn gpu_from_adapter(index: usize, adapter: &WmiAdapter) -> (r: GpuInfo)
    ensures
        r.index == index,
        r.name@ == adapter_name(opt_string_view(adapter.name)),
        r.vram@ == vram_text(adapter.adapter_ram),
        r.is_dedicated == names_dedicated_gpu(lowercase(r.name@)),
{
    let raw = match &adapter.name {
        Some(n) => chars_of(n.as_str()),
        None => chars_of("Unknown GPU"),
    };
    let name = trim_exec(&trim_junk_exec(&raw));
    let name_s = string_of(&name);
    let bytes = match adapter.adapter_ram {
        Some(b) => b,
        None => 0,
    };
    let vram = if bytes > 0 {
        let mut v = decimal_exec(bytes / (1024 * 1024));
        push_str(&mut v, " MB");
        string_of(&v)
    } else {
        String::from_str("Unknown")
    };
    let dedicated = is_dedicated_gpu_name(to_lowercase(name_s.as_str()).as_str());
    GpuInfo { index, name: name_s, vram, is_dedicated: dedicated }
}

/// Whether a lowercased adapter name names a dedicated adapter.
pub fn is_dedicated_gpu_name(lower: &str) -> (r: bool)
    ensures
        r == names_dedicated_gpu(lower@),
{
    let l = chars_of(lower);
    contains_str(&l, "nvidia") || contains_str(&l, "amd") || contains_str(&l, "radeon")
        || contains_str(&l, "geforce") || contains_str(&l, "rtx") || contains_str(&l, "gtx")
}

/// The GPUs of the adapters listed, numbered in order.
pub fn gpus_from_wmi(adapters: &Vec<WmiAdapter>) -> (r: Vec<GpuInfo>)
    ensures
        r@.len() == adapters@.len(),
        forall|i: int|
            0 <= i < r@.len() ==> (#[trigger] r@[i]).index == i && r@[i].name@ == adapter_name(
                opt_string_view(adapters@[i].name),
            ) && r@[i].vram@ == vram_text(adapters@[i].adapter_ram)
                && r@[i].is_dedicated == names_dedicated_gpu(lowercase(r@[i].name@)),
{
    let mut out: Vec<GpuInfo> = Vec::new();
    let mut i: usize = 0;
    while i < adapters.len()
        invariant
            i <= adapters.len(),
            out@.len() == i,
            forall|k: int|
                0 <= k < i ==> (#[trigger] out@[k]).index == k && out@[k].name@ == adapter_name(
                    opt_string_view(adapters@[k].name),
                ) && out@[k].vram@ == vram_text(adapters@[k].adapter_ram) && out@[k].is_dedicated
                    == names_dedicated_gpu(lowercase(out@[k].name@)),
        decreases adapters.len() - i,
    {
        out.push(gpu_from_adapter(i, &adapters[i]));
        i += 1;
    }
    out
}

/// The GPUs that PowerShell's `Win32_VideoController` query printed: its output with
/// leading byte-order marks removed and trimmed, read as JSON.
pub fn gpus_from_wmi_output(raw: &str) -> (r: Vec<GpuInfo>)
    ensures
        r@.len() == json_adapters(wmi_json(wmi_json_text(raw@))).len(),
        forall|i: int|
            0 <= i < r@.len() ==> (#[trigger] r@[i]).index == i && r@[i].name@ == adapter_name(
                json_adapters(wmi_json(wmi_json_text(raw@)))[i].0,
            ) && r@[i].vram@ == vram_text(json_adapters(wmi_json(wmi_json_text(raw@)))[i].1)
                && r@[i].is_dedicated == names_dedicated_gpu(lowercase(r@[i].name@)),
{
    let body = wmi_json_body(raw);
    let adapters = adapters_of(parse_wmi_json(body.as_str()));
    let r = gpus_from_wmi(&adapters);
    assert forall|i: int| 0 <= i < r@.len() implies (#[trigger] r@[i]).index == i && r@[i].name@
        == adapter_name(json_adapters(wmi_json(wmi_json_text(raw@)))[i].0) && r@[i].vram@ == vram_text(
        json_adapters(wmi_json(wmi_json_text(raw@)))[i].1,
    ) && r@[i].is_dedicated == names_dedicated_gpu(lowercase(r@[i].name@)) by {
        assert(adapter_views(adapters@)[i] == (
            opt_string_view(adapters@[i].name),
            adapters@[i].adapter_ram,
        ));
    }
    r
}

// ───────────────────────────── adapters from lspci (Linux) ─────────────────────────────

/// `s.splitn(n, c)`: at most `n` fields, the last holding the rest.
pub open spec fn splitn_char(s: Seq<char>, n: nat, c: char) -> Seq<Seq<char>>
    decreases n,
{
    if n <= 1 {
        seq![s]
    } else {
        match find_char(s, c) {
            None => seq![s],
            Some(k) => seq![s.subrange(0, k)] + splitn_char(
                s.subrange(k + 1, s.len() as int),
                (n - 1) as nat,
                c,
            ),
        }
    }
}

fn splitn_char_exec(s: &Vec<char>, n: usize, c: char) -> (r: Vec<Vec<char>>)
    ensures
        views(r@) == splitn_char(s@, n as nat, c),
    decreases n,
{
    if n <= 1 {
        let mut v: Vec<Vec<char>> = Vec::new();
        v.push(s.clone());
        assert(views(v@) =~= seq![s@]);
        return v;
    }
    match find_char_exec(s, c) {
        None => {
            let mut v: Vec<Vec<char>> = Vec::new();
            v.push(s.clone());
            assert(views(v@) =~= seq![s@]);
            v
        },
        Some(k) => {
            proof {
                crate::text::lemma_find_char_from_bounds(s@, c, 0);
            }
            let head = slice_of(s, 0, k);
            let rest = slice_of(s, k + 1, s.len());
            let tail = splitn_char_exec(&rest, n - 1, c);
            let mut v: Vec<Vec<char>> = Vec::new();
            v.push(head);
            let mut i: usize = 0;
            while i < tail.len()
                invariant
                    i <= tail.len(),
                    views(v@) == seq![s@.subrange(0, k as int)] + views(tail@).take(i as int),
                decreases tail.len() - i,
            {
                let ghost prev = v@;
                v.push(tail[i].clone());
                assert(views(v@) =~= views(prev).push(tail@[i as int]@));
                assert(views(tail@).take(i + 1) =~= views(tail@).take(i as int).push(
                    tail@[i as int]@,
                ));
                i += 1;
            }
            assert(views(tail@).take(tail@.len() as int) =~= views(tail@));
            v
        },
    }
}

pub open spec fn quote_start(s: Seq<char>, i: int) -> int
    decreases s.len() - i,
{
    if 0 <= i < s.len() && s[i] == '"' {
        quote_start(s, i + 1)
    } else {
        i
    }
}

pub open spec fn quote_end(s: Seq<char>, lo: int, j: int) -> int
    decreases j,
{
    if 0 < j && lo < j && j <= s.len() && s[j - 1] == '"' {
        quote_end(s, lo, j - 1)
    } else {
        j
    }
}

/// `s.trim_matches('"')`.
pub open spec fn trim_quotes(s: Seq<char>) -> Seq<char> {
    let a = quote_start(s, 0);
    s.subrange(a, quote_end(s, a, s.len() as int))
}

fn trim_quotes_exec(s: &Vec<char>) -> (r: Vec<char>)
    ensures
        r@ == trim_quotes(s@),
{
    let mut a: usize = 0;
    while a < s.len() && s[a] == '"'
        invariant
            a <= s.len(),
            quote_start(s@, 0) == quote_start(s@, a as int),
        decreases s.len() - a,
    {
        a += 1;
    }
    let mut b: usize = s.len();
    while b > a && s[b - 1] == '"'
        invariant
            a <= b <= s.len(),
            quote_start(s@, 0) == a,
            quote_end(s@, a as int, s@.len() as int) == quote_end(s@, a as int, b as int),
        decreases b,
    {
        b -= 1;
    }
    slice_of(s, a, b)
}

/// An `lspci -mm` line that describes a display controller.
pub open spec fn is_display_line(lower: Seq<char>) -> bool {
    contains(lower, "vga"@) || contains(lower, "display"@) || contains(lower, "3d"@)
}

/// The adapter name of an `lspci -mm` line: vendor and device (fields 3 and 4 between
/// quotes) joined by a space, trimmed; the whole line when it has fewer fields.
pub open spec fn lspci_name(line: Seq<char>) -> Seq<char> {
    let parts = splitn_char(line, 5, '"');
    if parts.len() >= 4 {
        trim(
            parts[3] + " "@ + (if parts.len() > 4 {
                trim_quotes(parts[4])
            } else {
                seq![]
            }),
        )
    } else {
        line
    }
}

/// The adapters of an `lspci -mm` listing: each display line as a GPU of unknown video
/// memory, dedicated when its vendor is NVIDIA or AMD/Radeon, numbered in order.
pub open spec fn lspci_gpus_from(ls: Seq<Seq<char>>) -> Seq<(Seq<char>, bool)>
    decreases ls.len(),
{
    if ls.len() == 0 {
        seq![]
    } else {
        let r = lspci_gpus_from(ls.drop_last());
        match lspci_entry(ls.last(), lowercase(ls.last())) {
            Some(e) => r.push(e),
            None => r,
        }
    }
}

/// The adapter an `lspci -mm` line describes, from the line and its lowercase form: its
/// name, and whether its vendor is NVIDIA or AMD/Radeon; none unless it is a display line.
pub open spec fn lspci_entry(line: Seq<char>, lower: Seq<char>) -> Option<(Seq<char>, bool)> {
    if is_display_line(lower) {
        Some(
            (
                lspci_name(line),
                contains(lower, "nvidia"@) || contains(lower, "amd"@) || contains(lower, "radeon"@),
            ),
        )
    } else {
        None
    }
}

pub fn lspci_gpu_entry(line: &str, lower: &str) -> (r: Option<(String, bool)>)
    ensures
        match r {
            Some(e) => lspci_entry(line@, lower@) == Some((e.0@, e.1)),
            None => lspci_entry(line@, lower@) is None,
        },
{
    let l = chars_of(lower);
    if contains_str(&l, "vga") || contains_str(&l, "display") || contains_str(&l, "3d") {
        let name = lspci_name_exec(&chars_of(line));
        let dedicated = contains_str(&l, "nvidia") || contains_str(&l, "amd") || contains_str(
            &l,
            "radeon",
        );
        Some((string_of(&name), dedicated))
    } else {
        None
    }
}

/// The GPUs of an `lspci -mm` listing; one placeholder entry when it shows none.
pub open spec fn lspci_gpus(text: Seq<char>) -> Seq<(Seq<char>, bool)> {
    let found = lspci_gpus_from(lines(text));
    if found.len() == 0 {
        seq![("GPU detection unavailable"@, false)]
    } else {
        found
    }
}

fn lspci_name_exec(line: &Vec<char>) -> (r: Vec<char>)
    ensures
        r@ == lspci_name(line@),
{
    let parts = splitn_char_exec(line, 5, '"');
    if parts.len() >= 4 {
        let ghost pv = views(parts@);
        assert(pv[3] == parts@[3]@);
        let mut v = parts[3].clone();
        push_str(&mut v, " ");
        if parts.len() > 4 {
            assert(pv[4] == parts@[4]@);
            push_chars(&mut v, &trim_quotes_exec(&parts[4]));
        }
        trim_exec(&v)
    } else {
        line.clone()
    }
}

pub open spec fn gpu_views(v: Seq<GpuInfo>) -> Seq<(Seq<char>, bool)> {
    v.map_values(|g: GpuInfo| (g.name@, g.is_dedicated))
}

/// The GPUs of an `lspci -mm` listing.
pub fn gpus_from_lspci(text: &str) -> (r: Vec<GpuInfo>)
    ensures
        gpu_views(r@) == lspci_gpus(text@),
        forall|i: int| 0 <= i < r@.len() ==> (#[trigger] r@[i]).index == i && r@[i].vram@ == "Unknown"@,
{
    let ls = split_lines(&chars_of(text));
    let ghost sl = views(ls@);
    let mut out: Vec<GpuInfo> = Vec::new();
    let mut i: usize = 0;
    while i < ls.len()
        invariant
            i <= ls.len(),
            sl == views(ls@),
            sl == lines(text@),
            gpu_views(out@) == lspci_gpus_from(sl.take(i as int)),
            forall|k: int| 0 <= k < out@.len() ==> (#[trigger] out@[k]).index == k && out@[k].vram@ == "Unknown"@,
        decreases ls.len() - i,
    {
        assert(sl.take(i + 1).drop_last() =~= sl.take(i as int));
        assert(sl[i as int] == ls@[i as int]@);
        let line_s = string_of(&ls[i]);
        let lower = to_lowercase(line_s.as_str());
        match lspci_gpu_entry(line_s.as_str(), lower.as_str()) {
            Some((name, dedicated)) => {
                let ghost prev = out@;
                let ghost e = (name@, dedicated);
                let idx = out.len();
                out.push(
                    GpuInfo {
                        index: idx,
                        name,
                        vram: String::from_str("Unknown"),
                        is_dedicated: dedicated,
                    },
                );
                assert(gpu_views(out@) =~= gpu_views(prev).push(e));
            },
            None => {},
        }
        i += 1;
    }
    assert(sl.take(sl.len() as int) =~= sl);
    if out.len() == 0 {
        out.push(
            GpuInfo {
                index: 0,
                name: String::from_str("GPU detection unavailable"),
                vram: String::from_str("Unknown"),
                is_dedicated: false,
            },
        );
        assert(gpu_views(out@) =~= seq![("GPU detection unavailable"@, false)]);
    }
    out
}

/// The entry shown when `lspci` cannot be run.
pub fn gpu_detection_not_available() -> (r: GpuInfo)
    ensures
        r.index == 0,
        r.name@ == "GPU detection not available on this platform"@,
        r.vram@ == "Unknown"@,
        !r.is_dedicated,
{
    GpuInfo {
        index: 0,
        name: String::from_str("GPU detection not available on this platform"),
        vram: String::from_str("Unknown"),
        is_dedicated: false,
    }
}

// ───────────────────────────── virtualization ─────────────────────────────

/// A PowerShell query printed `True` (any case, surrounding whitespace ignored).
pub open spec fn says_true(out: Seq<char>) -> bool {
    lowercase(trim(out)) == "true"@
}

pub fn reports_true(out: &str) -> (r: bool)
    ensures
        r == says_true(out@),
{
    let t = string_of(&trim_exec(&chars_of(out)));
    says_true_lowercase(to_lowercase(t.as_str()).as_str())
}

/// Whether the lowercased, trimmed answer is `true`.
pub fn says_true_lowercase(lower: &str) -> (r: bool)
    ensures
        r == (lower@ == "true"@),
{
    eq_str(&chars_of(lower), "true")
}

/// Windows: with a hypervisor running (Hyper-V, WSL2, WHPX) both are on; else WHPX is
/// off and VT-x/AMD-V is what the firmware query says.
pub fn windows_hypervisor_status(hypervisor_present: bool, firmware_virtualization: bool) -> (r:
    HypervisorStatus)
    ensures
        hypervisor_present ==> r.whpx_enabled && r.vtx_enabled,
        !hypervisor_present ==> !r.whpx_enabled && r.vtx_enabled == firmware_virtualization,
{
    if hypervisor_present {
        HypervisorStatus { whpx_enabled: true, vtx_enabled: true }
    } else {
        HypervisorStatus { whpx_enabled: false, vtx_enabled: firmware_virtualization }
    }
}

/// Linux: VT-x/AMD-V when `/proc/cpuinfo` mentions `vmx` or `svm`; the hypervisor is
/// KVM, present when `/dev/kvm` exists.
pub fn linux_hypervisor_status(cpuinfo: Option<&str>, kvm_present: bool) -> (r: HypervisorStatus)
    ensures
        r.whpx_enabled == kvm_present,
        r.vtx_enabled == (match cpuinfo {
            Some(c) => contains(c@, "vmx"@) || contains(c@, "svm"@),
            None => false,
        }),
{
    let vtx = match cpuinfo {
        Some(c) => {
            let v = chars_of(c);
            contains_str(&v, "vmx") || contains_str(&v, "svm")
        },
        None => false,
    };
    HypervisorStatus { whpx_enabled: kvm_present, vtx_enabled: vtx }
}

/// The result of enabling the Windows Hypervisor Platform: success as the command
/// exited, its error output on failure, its standard output always.
pub fn whpx_command_result(success: bool, stdout: String, stderr: String) -> (r: CommandResult)
    ensures
        r.ok == success,
        success ==> r.error is None,
        !success ==> opt_string_view(r.error) == Some(stderr@),
        opt_string_view(r.output) == Some(stdout@),
{
    CommandResult {
        ok: success,
        error: if !success {
            Some(stderr)
        } else {
            None
        },
        output: Some(stdout),
    }
}

/// The result where the enabling command could not be started.
pub fn command_failure(error: String) -> (r: CommandResult)
    ensures
        !r.ok,
        opt_string_view(r.error) == Some(error@),
        r.output is None,
{
    CommandResult { ok: false, error: Some(error), output: None }
}

/// Enabling WHPX off Windows: a failure explaining how to enable KVM.
pub fn whpx_unavailable() -> (r: CommandResult)
    ensures
        !r.ok,
        opt_string_view(r.error) == Some(
            "WHPX is a Windows-only feature. On Linux, ensure KVM is enabled: 'sudo modprobe kvm kvm_intel' (or kvm_amd)."@,
        ),
        r.output is None,
{
    CommandResult {
        ok: false,
        error: Some(
            String::from_str(
                "WHPX is a Windows-only feature. On Linux, ensure KVM is enabled: 'sudo modprobe kvm kvm_intel' (or kvm_amd).",
            ),
        ),
        output: None,
    }
}

// ───────────────────────────── GPU preference (Windows) ─────────────────────────────

/// The executables whose DirectX GPU preference is set: the emulator and its QEMU, as
/// Windows paths.
pub fn gpu_preference_targets(emulator_dir: &str) -> (r: Vec<String>)
    ensures
        r@.len() == 2,
        r@[0]@ == join_path(emulator_dir@, "emulator.exe"@, true),
        r@[1]@ == join_path(
            join_path(join_path(emulator_dir@, "qemu"@, true), "windows-x86_64"@, true),
            "qemu-system-x86_64.exe"@,
            true,
        ),
{
    let mut v: Vec<String> = Vec::new();
    v.push(join(emulator_dir, "emulator.exe", true));
    let q = join(emulator_dir, "qemu", true);
    let w = join(q.as_str(), "windows-x86_64", true);
    v.push(join(w.as_str(), "qemu-system-x86_64.exe", true));
    v
}

/// The registry value `GpuPreference=N;`.
pub fn gpu_preference_value(preference: u32) -> (r: String)
    ensures
        r@ == "GpuPreference="@ + decimal(preference as nat) + ";"@,
{
    let mut v = chars_of("GpuPreference=");
    push_chars(&mut v, &decimal_exec(preference as u64));
    push_str(&mut v, ";");
    string_of(&v)
}

/// The result of setting the GPU preference on the existing targets: an error when
/// there are none, success with a summary when every write worked, else the write
/// errors joined by `; `.
pub fn gpu_preference_outcome(preference: u32, targets: usize, errors: &Vec<String>) -> (r:
    CommandResult)
    ensures
        targets == 0 ==> !r.ok && opt_string_view(r.error) == Some(
            "Emulator not installed yet. Install the emulator first."@,
        ) && r.output is None,
        targets > 0 && errors@.len() == 0 ==> r.ok && r.error is None && opt_string_view(r.output)
            == Some(
            "GPU preference "@ + decimal(preference as nat) + " applied to "@ + decimal(
                targets as nat,
            ) + " executables"@,
        ),
        targets > 0 && errors@.len() > 0 ==> !r.ok && opt_string_view(r.error) == Some(
            join_text(crate::avd::string_views(errors@), "; "@),
        ) && r.output is None,
{
    if targets == 0 {
        return CommandResult {
            ok: false,
            error: Some(String::from_str("Emulator not installed yet. Install the emulator first.")),
            output: None,
        };
    }
    if errors.len() == 0 {
        let mut v = chars_of("GPU preference ");
        push_chars(&mut v, &decimal_exec(preference as u64));
        push_str(&mut v, " applied to ");
        push_chars(&mut v, &decimal_exec(targets as u64));
        push_str(&mut v, " executables");
        CommandResult { ok: true, error: None, output: Some(string_of(&v)) }
    } else {
        let mut parts: Vec<Vec<char>> = Vec::new();
        let mut i: usize = 0;
        while i < errors.len()
            invariant
                i <= errors.len(),
                views(parts@) == crate::avd::string_views(errors@).take(i as int),
            decreases errors.len() - i,
        {
            let ghost prev = parts@;
            parts.push(chars_of(errors[i].as_str()));
            assert(views(parts@) =~= views(prev).push(errors@[i as int]@));
            assert(crate::avd::string_views(errors@).take(i + 1) =~= crate::avd::string_views(
                errors@,
            ).take(i as int).push(errors@[i as int]@));
            i += 1;
        }
        assert(crate::avd::string_views(errors@).take(errors@.len() as int)
            =~= crate::avd::string_views(errors@));
        let joined = join_exec(&parts, &chars_of("; "));
        CommandResult { ok: false, error: Some(string_of(&joined)), output: None }
    }
}

/// Setting the GPU preference off Windows: a failure pointing at Mesa's variables.
pub fn gpu_preference_unavailable() -> (r: CommandResult)
    ensures
        !r.ok,
        opt_string_view(r.error) == Some(
            "GPU registry preference is a Windows-only feature (DirectX/DXGI). On Linux, GPU selection is handled via MESA_VK_DEVICE_SELECT or DRI_PRIME environment variables."@,
        ),
        r.output is None,
{
    CommandResult {
        ok: false,
        error: Some(
            String::from_str(
                "GPU registry preference is a Windows-only feature (DirectX/DXGI). On Linux, GPU selection is handled via MESA_VK_DEVICE_SELECT or DRI_PRIME environment variables.",
            ),
        ),
        output: None,
    }
}

} // verus!
