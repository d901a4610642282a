//! Reading and rewriting an AVD's `config.ini` (`key=value` lines).
use vstd::prelude::*;
use crate::text::{
    chars_of, contains, contains_str, is_white_space, join, join_exec, lines, push_chars,
    second_field, second_field_exec, split_lines, starts_with, starts_with_str, strip_cr,
    string_of, trim, trim_exec, views,
};

verus! {

// ───────────────────────────── single lines ─────────────────────────────

/// The trimmed line starts with `key` (keys are written with their `=`).
pub open spec fn has_key(line: Seq<char>, key: Seq<char>) -> bool {
    starts_with(trim(line), key)
}

/// `line.trim().split('=').nth(1).unwrap_or("").trim()`.
pub open spec fn field_value(line: Seq<char>) -> Seq<char> {
    match second_field(trim(line), '=') {
        Some(f) => trim(f),
        None => seq![],
    }
}

pub fn has_key_exec(line: &Vec<char>, key: &str) -> (r: bool)
    ensures
        r == has_key(line@, key@),
{
    let t = trim_exec(line);
    starts_with_str(&t, key)
}

pub fn field_value_exec(line: &Vec<char>) -> (r: Vec<char>)
    ensures
        r@ == field_value(line@),
{
    let t = trim_exec(line);
    match second_field_exec(&t, '=') {
        Some(f) => trim_exec(&f),
        None => Vec::new(),
    }
}

// ───────────────────────────── device kind ─────────────────────────────

pub open spec fn is_tag_line(line: Seq<char>) -> bool {
    has_key(line, "tag.id="@)
}

pub open spec fn is_sysdir_line(line: Seq<char>) -> bool {
    has_key(line, "image.sysdir.1="@)
}

/// The line names a Wear OS image.
pub open spec fn marks_wear(line: Seq<char>) -> bool {
    let f = field_value(line);
    (is_tag_line(line) && contains(f, "wear"@)) || (is_sysdir_line(line) && contains(f, "wear"@))
}

/// The line names an Android TV or Google TV image.
pub open spec fn marks_tv(line: Seq<char>) -> bool {
    let f = field_value(line);
    (is_tag_line(line) && (contains(f, "tv"@) || contains(f, "google-tv"@))) || (is_sysdir_line(
        line,
    ) && (contains(f, "android-tv"@) || contains(f, "google-tv"@)))
}

/// The line names an Android Automotive image.
pub open spec fn marks_automotive(line: Seq<char>) -> bool {
    let f = field_value(line);
    (is_tag_line(line) && contains(f, "automotive"@)) || (is_sysdir_line(line) && contains(
        f,
        "android-automotive"@,
    ))
}

/// Kind of system image an AVD was created from.
pub struct DeviceKind {
    pub wear: bool,
    pub tv: bool,
    pub automotive: bool,
}

impl DeviceKind {
    pub open spec fn special(self) -> bool {
        self.wear || self.tv || self.automotive
    }

    pub fn is_special(&self) -> (r: bool)
        ensures
            r == self.special(),
    {
        self.wear || self.tv || self.automotive
    }
}

/// The kind that the `tag.id` and `image.sysdir.1` lines of a config name.
pub open spec fn device_kind(content: Seq<char>) -> DeviceKind {
    let ls = lines(content);
    DeviceKind {
        wear: exists|i: int| 0 <= i < ls.len() && #[trigger] marks_wear(ls[i]),
        tv: exists|i: int| 0 <= i < ls.len() && #[trigger] marks_tv(ls[i]),
        automotive: exists|i: int| 0 <= i < ls.len() && #[trigger] marks_automotive(ls[i]),
    }
}

fn marks_exec(line: &Vec<char>) -> (r: (bool, bool, bool))
    ensures
        r == (marks_wear(line@), marks_tv(line@), marks_automotive(line@)),
{
    let tag = has_key_exec(line, "tag.id=");
    let sys = has_key_exec(line, "image.sysdir.1=");
    if !tag && !sys {
        return (false, false, false);
    }
    let f = field_value_exec(line);
    let wear = (tag && contains_str(&f, "wear")) || (sys && contains_str(&f, "wear"));
    let tv = (tag && (contains_str(&f, "tv") || contains_str(&f, "google-tv"))) || (sys && (
    contains_str(&f, "android-tv") || contains_str(&f, "google-tv")));
    let auto = (tag && contains_str(&f, "automotive")) || (sys && contains_str(
        &f,
        "android-automotive",
    ));
    (wear, tv, auto)
}

fn device_kind_of_lines(ls: &Vec<Vec<char>>) -> (k: DeviceKind)
    ensures
        k.wear == exists|i: int| 0 <= i < ls@.len() && #[trigger] marks_wear(views(ls@)[i]),
        k.tv == exists|i: int| 0 <= i < ls@.len() && #[trigger] marks_tv(views(ls@)[i]),
        k.automotive == exists|i: int|
            0 <= i < ls@.len() && #[trigger] marks_automotive(views(ls@)[i]),
{
    let mut wear = false;
    let mut tv = false;
    let mut auto = false;
    let mut i: usize = 0;
    while i < ls.len()
        invariant
            i <= ls.len(),
            wear == exists|j: int| 0 <= j < i && #[trigger] marks_wear(views(ls@)[j]),
            tv == exists|j: int| 0 <= j < i && #[trigger] marks_tv(views(ls@)[j]),
            auto == exists|j: int| 0 <= j < i && #[trigger] marks_automotive(views(ls@)[j]),
        decreases ls.len() - i,
    {
        let (w, t, a) = marks_exec(&ls[i]);
        assert(views(ls@)[i as int] == ls@[i as int]@);
        wear = wear || w;
        tv = tv || t;
        auto = auto || a;
        i += 1;
    }
    DeviceKind { wear, tv, automotive: auto }
}

/// Which kind of system image a config names.
pub fn detect_device_kind(content: &str) -> (k: DeviceKind)
    ensures
        k == device_kind(content@),
{
    let cv = chars_of(content);
    let ls = split_lines(&cv);
    device_kind_of_lines(&ls)
}


// ───────────────────────────── heap tuning before launch ─────────────────────────────

/// Dalvik heap size (MB, as text) for a device kind and a RAM size in MB.
pub open spec fn heap_size_for(kind: DeviceKind, ram: nat) -> Seq<char> {
    if kind.wear {
        "128"@
    } else if kind.tv {
        "256"@
    } else if kind.automotive {
        "512"@
    } else if ram >= 8192 {
        "1024"@
    } else {
        "512"@
    }
}

pub fn heap_size_exec(kind: &DeviceKind, ram: u64) -> (r: &'static str)
    ensures
        r@ == heap_size_for(*kind, ram as nat),
{
    if kind.wear {
        "128"
    } else if kind.tv {
        "256"
    } else if kind.automotive {
        "512"
    } else if ram >= 8192 {
        "1024"
    } else {
        "512"
    }
}

/// RAM size (MB) that the `hw.ramSize` lines of a config leave in force: the last such
/// line's value, 4096 where it does not parse, and 4096 with no such line.
pub open spec fn configured_ram(ls: Seq<Seq<char>>) -> u64
    decreases ls.len(),
{
    if ls.len() == 0 {
        4096
    } else {
        let prev = configured_ram(ls.drop_last());
        if has_key(ls.last(), "hw.ramSize="@) {
            match second_field(trim(ls.last()), '=') {
                Some(v) => match crate::number::parse_u64(v) {
                    Some(n) => n,
                    None => 4096,
                },
                None => prev,
            }
        } else {
            prev
        }
    }
}

/// The line `key` followed by `value` (keys are written with their `=`).
pub open spec fn key_line(key: Seq<char>, value: Seq<char>) -> Seq<char> {
    key + value
}

pub fn key_line_exec(key: &str, value: &Vec<char>) -> (r: Vec<char>)
    ensures
        r@ == key_line(key@, value@),
{
    let mut r = chars_of(key);
    push_chars(&mut r, value);
    r
}

pub open spec fn set_heap(ls: Seq<Seq<char>>, heap: Seq<char>) -> Seq<Seq<char>> {
    ls.map_values(
        |l: Seq<char>|
            if has_key(l, "vm.heapSize="@) {
                key_line("vm.heapSize="@, heap)
            } else {
                l
            },
    )
}

pub open spec fn any_key(ls: Seq<Seq<char>>, key: Seq<char>) -> bool {
    exists|i: int| 0 <= i < ls.len() && #[trigger] has_key(ls[i], key)
}

/// The config after heap tuning: each `vm.heapSize` line set to `heap`, one appended
/// when there is none.
pub open spec fn heap_tuned_lines(ls: Seq<Seq<char>>, heap: Seq<char>) -> Seq<Seq<char>> {
    if any_key(ls, "vm.heapSize="@) {
        set_heap(ls, heap)
    } else {
        set_heap(ls, heap).push(key_line("vm.heapSize="@, heap))
    }
}

/// What heap tuning before a launch writes back: the config with its heap size set for
/// its image kind and configured RAM (128 MB for Wear OS, 256 MB for TV, 512 MB for
/// Automotive).
pub open spec fn heap_tuned_config(content: Seq<char>) -> Seq<char> {
    let kind = device_kind(content);
    let ls = lines(content);
    join(heap_tuned_lines(ls, heap_size_for(kind, configured_ram(ls) as nat)), "\n"@)
}

/// A line whose trimmed text starts with `v` sets neither the RAM nor the image.
proof fn lemma_v_line_sets_nothing(l: Seq<char>)
    requires
        trim(l).len() > 0,
        trim(l)[0] == 'v',
    ensures
        !has_key(l, "hw.ramSize="@),
        !is_tag_line(l),
        !is_sysdir_line(l),
        !marks_wear(l),
        !marks_tv(l),
        !marks_automotive(l),
{
    reveal_strlit("hw.ramSize=");
    reveal_strlit("tag.id=");
    reveal_strlit("image.sysdir.1=");
    let t = trim(l);
    if starts_with(t, "hw.ramSize="@) {
        assert(t.subrange(0, 11)[0] == t[0]);
    }
    if starts_with(t, "tag.id="@) {
        assert(t.subrange(0, 7)[0] == t[0]);
    }
    if starts_with(t, "image.sysdir.1="@) {
        assert(t.subrange(0, 15)[0] == t[0]);
    }
}

/// A `vm.heapSize` line's trimmed text starts with `v`.
proof fn lemma_heap_line_starts_v(l: Seq<char>)
    requires
        has_key(l, "vm.heapSize="@),
    ensures
        trim(l).len() > 0,
        trim(l)[0] == 'v',
{
    reveal_strlit("vm.heapSize=");
    assert(trim(l).subrange(0, 12)[0] == trim(l)[0]);
}

/// The heap line written by the tuning: no line break, and trimming leaves it whole.
proof fn lemma_written_heap_line(heap: Seq<char>)
    requires
        heap == "128"@ || heap == "256"@ || heap == "512"@ || heap == "1024"@,
    ensures
        key_line("vm.heapSize="@, heap).len() > 0,
        crate::text::no_newline(key_line("vm.heapSize="@, heap)),
        trim(key_line("vm.heapSize="@, heap)) == key_line("vm.heapSize="@, heap),
        has_key(key_line("vm.heapSize="@, heap), "vm.heapSize="@),
        trim(key_line("vm.heapSize="@, heap))[0] == 'v',
{
    reveal_strlit("vm.heapSize=");
    reveal_strlit("128");
    reveal_strlit("256");
    reveal_strlit("512");
    reveal_strlit("1024");
    let l = key_line("vm.heapSize="@, heap);
    assert(l[0] == 'v');
    assert(!is_white_space(l[0]));
    assert(!is_white_space(l.last()));
    assert(crate::text::trim_start_index(l, 0) == 0);
    assert(crate::text::trim_end_index(l, 0, l.len() as int) == l.len());
    assert(trim(l) =~= l);
    assert(l.subrange(0, 12) =~= "vm.heapSize="@);
}

/// Lines with the same trimmed text mean the same to the config readers.
pub(crate) proof fn lemma_same_trim_same_meaning(a: Seq<char>, b: Seq<char>)
    requires
        trim(a) == trim(b),
    ensures
        has_key(a, "hw.ramSize="@) == has_key(b, "hw.ramSize="@),
        has_key(a, "vm.heapSize="@) == has_key(b, "vm.heapSize="@),
        marks_wear(a) == marks_wear(b),
        marks_tv(a) == marks_tv(b),
        marks_automotive(a) == marks_automotive(b),
{
}

/// Two lines agree on what they say of the RAM.
pub(crate) open spec fn same_ram_line(a: Seq<char>, b: Seq<char>) -> bool {
    &&& has_key(a, "hw.ramSize="@) == has_key(b, "hw.ramSize="@)
    &&& has_key(a, "hw.ramSize="@) ==> trim(a) == trim(b)
}

/// Line by line agreement on the RAM gives the same configured RAM.
proof fn lemma_configured_ram_same(l1: Seq<Seq<char>>, l2: Seq<Seq<char>>)
    requires
        l1.len() == l2.len(),
        forall|i: int| 0 <= i < l1.len() ==> #[trigger] same_ram_line(l1[i], l2[i]),
    ensures
        configured_ram(l1) == configured_ram(l2),
    decreases l1.len(),
{
    if l1.len() > 0 {
        let (p1, p2) = (l1.drop_last(), l2.drop_last());
        assert forall|i: int| 0 <= i < p1.len() implies #[trigger] same_ram_line(p1[i], p2[i]) by {
            assert(same_ram_line(l1[i], l2[i]));
        }
        lemma_configured_ram_same(p1, p2);
        assert(same_ram_line(l1[l1.len() - 1], l2[l2.len() - 1]));
    }
}

/// A last line that sets no RAM changes nothing.
proof fn lemma_configured_ram_push(ls: Seq<Seq<char>>, l: Seq<char>)
    requires
        !has_key(l, "hw.ramSize="@),
    ensures
        configured_ram(ls.push(l)) == configured_ram(ls),
{
    assert(ls.push(l).drop_last() =~= ls);
}

/// One of the three image marks: Wear OS (0), TV (1), Automotive (2).
pub open spec fn marks_k(l: Seq<char>, k: int) -> bool {
    if k == 0 {
        marks_wear(l)
    } else if k == 1 {
        marks_tv(l)
    } else {
        marks_automotive(l)
    }
}

/// A line that names an image is no heap line, and is not empty.
proof fn lemma_marked_line(l: Seq<char>, k: int)
    requires
        marks_k(l, k),
    ensures
        !has_key(l, "vm.heapSize="@),
        l.len() > 0,
{
    if has_key(l, "vm.heapSize="@) {
        lemma_heap_line_starts_v(l);
        lemma_v_line_sets_nothing(l);
    }
    reveal_strlit("tag.id=");
    reveal_strlit("image.sysdir.1=");
    if l.len() == 0 {
        assert(trim(l) =~= seq![]);
    }
}

/// Lines rewritten with only an unmarked line put in or added name the same images.
pub(crate) proof fn lemma_kind_read_back(
    ls: Seq<Seq<char>>,
    t: Seq<Seq<char>>,
    back: Seq<Seq<char>>,
    k: int,
)
    requires
        0 <= k < 3,
        t.len() >= ls.len(),
        forall|i: int| 0 <= i < t.len() && #[trigger] marks_k(t[i], k) ==> i < ls.len() && t[i] == ls[i],
        forall|j: int| 0 <= j < ls.len() && #[trigger] marks_k(ls[j], k) ==> t[j] == ls[j],
        back.len() == t.len() || (back.len() == t.len() - 1 && t.last().len() == 0),
        forall|i: int| 0 <= i < back.len() ==> trim(#[trigger] back[i]) == trim(t[i]),
    ensures
        (exists|i: int| 0 <= i < back.len() && #[trigger] marks_k(back[i], k)) == (exists|j: int|
            0 <= j < ls.len() && #[trigger] marks_k(ls[j], k)),
{
    if exists|i: int| 0 <= i < back.len() && #[trigger] marks_k(back[i], k) {
        let i = choose|i: int| 0 <= i < back.len() && #[trigger] marks_k(back[i], k);
        assert(trim(back[i]) == trim(t[i]));
        lemma_same_trim_same_meaning(back[i], t[i]);
        assert(marks_k(t[i], k));
        assert(marks_k(ls[i], k));
    }
    if exists|j: int| 0 <= j < ls.len() && #[trigger] marks_k(ls[j], k) {
        let j = choose|j: int| 0 <= j < ls.len() && #[trigger] marks_k(ls[j], k);
        lemma_marked_line(ls[j], k);
        assert(t[j] == ls[j]);
        assert(j < back.len());
        assert(trim(back[j]) == trim(t[j]));
        lemma_same_trim_same_meaning(back[j], t[j]);
        assert(marks_k(back[j], k));
    }
}

/// Read back, the tuned config names the same kind and RAM as the config tuned, and each
/// of its `vm.heapSize` lines reads `vm.heapSize=` and the heap set (there is one).
pub(crate) proof fn lemma_heap_tuning_read_back(content: Seq<char>)
    ensures
        ({
            let tuned = heap_tuned_config(content);
            let heap = heap_size_for(device_kind(content), configured_ram(lines(content)) as nat);
            &&& device_kind(tuned) == device_kind(content)
            &&& configured_ram(lines(tuned)) == configured_ram(lines(content))
            &&& forall|i: int|
                0 <= i < lines(tuned).len() && has_key(#[trigger] lines(tuned)[i], "vm.heapSize="@)
                    ==> trim(lines(tuned)[i]) == key_line("vm.heapSize="@, heap)
            &&& exists|i: int|
                0 <= i < lines(tuned).len() && has_key(#[trigger] lines(tuned)[i], "vm.heapSize="@)
        }),
{
    let kind = device_kind(content);
    let ls = lines(content);
    let heap = heap_size_for(kind, configured_ram(ls) as nat);
    let hl = key_line("vm.heapSize="@, heap);
    let t = heap_tuned_lines(ls, heap);
    let tuned = join(t, "\n"@);
    lemma_written_heap_line(heap);
    lemma_v_line_sets_nothing(hl);
    crate::text::lemma_lines_no_newline(content);
    let sh = set_heap(ls, heap);
    // Each tuned line is an untouched line of the config, or the heap line.
    assert forall|i: int| 0 <= i < t.len() implies ({
        let x = #[trigger] t[i];
        &&& crate::text::no_newline(x)
        &&& (x == hl || (i < ls.len() && x == ls[i] && !has_key(x, "vm.heapSize="@)))
    }) by {
        if i < ls.len() {
            assert(t[i] == sh[i]);
            if has_key(ls[i], "vm.heapSize="@) {
                assert(t[i] == hl);
            } else {
                assert(t[i] == ls[i]);
                assert(crate::text::no_newline(ls[i]));
            }
        } else {
            assert(t[i] == hl);
        }
    }
    assert forall|k: int, j: int| 0 <= k < 3 && 0 <= j < ls.len() && #[trigger] marks_k(ls[j], k)
        implies t[j] == ls[j] by {
        lemma_marked_line(ls[j], k);
        assert(t[j] == sh[j]);
    }
    // Tuning keeps the configured RAM.
    assert forall|i: int| 0 <= i < ls.len() implies #[trigger] same_ram_line(sh[i], ls[i]) by {
        if has_key(ls[i], "vm.heapSize="@) {
            lemma_heap_line_starts_v(ls[i]);
            lemma_v_line_sets_nothing(ls[i]);
        }
    }
    lemma_configured_ram_same(sh, ls);
    if !any_key(ls, "vm.heapSize="@) {
        lemma_configured_ram_push(sh, hl);
    }
    assert(configured_ram(t) == configured_ram(ls));
    // There is a heap line among the tuned lines.
    let w: int = if any_key(ls, "vm.heapSize="@) {
        choose|i: int| 0 <= i < ls.len() && #[trigger] has_key(ls[i], "vm.heapSize="@)
    } else {
        ls.len() as int
    };
    assert(t[w] == hl);
    // Reading the joined lines back.
    assert(t.len() >= 1);
    crate::text::lemma_lines_of_join(t);
    let back = lines(tuned);
    let sc = crate::text::strip_cr_all(t.drop_last());
    assert forall|i: int| 0 <= i < back.len() implies trim(#[trigger] back[i]) == trim(t[i]) by {
        if i < sc.len() {
            assert(back[i] == crate::text::strip_cr(t[i]));
            crate::text::lemma_trim_strip_cr(t[i]);
        } else {
            assert(back[i] == t[i]);
        }
    }
    assert(back.len() == t.len() || (back.len() == t.len() - 1 && t.last().len() == 0));
    // The same kind.
    assert forall|k: int, i: int| 0 <= k < 3 && 0 <= i < t.len() && #[trigger] marks_k(t[i], k)
        implies i < ls.len() && t[i] == ls[i] by {
        lemma_v_line_sets_nothing(hl);
    }
    lemma_kind_read_back(ls, t, back, 0);
    lemma_kind_read_back(ls, t, back, 1);
    lemma_kind_read_back(ls, t, back, 2);
    assert((exists|i: int| 0 <= i < back.len() && #[trigger] marks_wear(back[i])) == (exists|i: int|
        0 <= i < back.len() && #[trigger] marks_k(back[i], 0))) by {
        if exists|i: int| 0 <= i < back.len() && #[trigger] marks_wear(back[i]) {
            let i = choose|i: int| 0 <= i < back.len() && #[trigger] marks_wear(back[i]);
            assert(marks_k(back[i], 0));
        }
        if exists|i: int| 0 <= i < back.len() && #[trigger] marks_k(back[i], 0) {
            let i = choose|i: int| 0 <= i < back.len() && #[trigger] marks_k(back[i], 0);
            assert(marks_wear(back[i]));
        }
    }
    assert((exists|i: int| 0 <= i < back.len() && #[trigger] marks_tv(back[i])) == (exists|i: int|
        0 <= i < back.len() && #[trigger] marks_k(back[i], 1))) by {
        if exists|i: int| 0 <= i < back.len() && #[trigger] marks_tv(back[i]) {
            let i = choose|i: int| 0 <= i < back.len() && #[trigger] marks_tv(back[i]);
            assert(marks_k(back[i], 1));
        }
        if exists|i: int| 0 <= i < back.len() && #[trigger] marks_k(back[i], 1) {
            let i = choose|i: int| 0 <= i < back.len() && #[trigger] marks_k(back[i], 1);
            assert(marks_tv(back[i]));
        }
    }
    assert((exists|i: int| 0 <= i < back.len() && #[trigger] marks_automotive(back[i])) == (exists|i: int|
        0 <= i < back.len() && #[trigger] marks_k(back[i], 2))) by {
        if exists|i: int| 0 <= i < back.len() && #[trigger] marks_automotive(back[i]) {
            let i = choose|i: int| 0 <= i < back.len() && #[trigger] marks_automotive(back[i]);
            assert(marks_k(back[i], 2));
        }
        if exists|i: int| 0 <= i < back.len() && #[trigger] marks_k(back[i], 2) {
            let i = choose|i: int| 0 <= i < back.len() && #[trigger] marks_k(back[i], 2);
            assert(marks_automotive(back[i]));
        }
    }
    assert((exists|i: int| 0 <= i < ls.len() && #[trigger] marks_wear(ls[i])) == (exists|i: int|
        0 <= i < ls.len() && #[trigger] marks_k(ls[i], 0))) by {
        if exists|i: int| 0 <= i < ls.len() && #[trigger] marks_wear(ls[i]) {
            let i = choose|i: int| 0 <= i < ls.len() && #[trigger] marks_wear(ls[i]);
            assert(marks_k(ls[i], 0));
        }
        if exists|i: int| 0 <= i < ls.len() && #[trigger] marks_k(ls[i], 0) {
            let i = choose|i: int| 0 <= i < ls.len() && #[trigger] marks_k(ls[i], 0);
            assert(marks_wear(ls[i]));
        }
    }
    assert((exists|i: int| 0 <= i < ls.len() && #[trigger] marks_tv(ls[i])) == (exists|i: int|
        0 <= i < ls.len() && #[trigger] marks_k(ls[i], 1))) by {
        if exists|i: int| 0 <= i < ls.len() && #[trigger] marks_tv(ls[i]) {
            let i = choose|i: int| 0 <= i < ls.len() && #[trigger] marks_tv(ls[i]);
            assert(marks_k(ls[i], 1));
        }
        if exists|i: int| 0 <= i < ls.len() && #[trigger] marks_k(ls[i], 1) {
            let i = choose|i: int| 0 <= i < ls.len() && #[trigger] marks_k(ls[i], 1);
            assert(marks_tv(ls[i]));
        }
    }
    assert((exists|i: int| 0 <= i < ls.len() && #[trigger] marks_automotive(ls[i])) == (exists|i: int|
        0 <= i < ls.len() && #[trigger] marks_k(ls[i], 2))) by {
        if exists|i: int| 0 <= i < ls.len() && #[trigger] marks_automotive(ls[i]) {
            let i = choose|i: int| 0 <= i < ls.len() && #[trigger] marks_automotive(ls[i]);
            assert(marks_k(ls[i], 2));
        }
        if exists|i: int| 0 <= i < ls.len() && #[trigger] marks_k(ls[i], 2) {
            let i = choose|i: int| 0 <= i < ls.len() && #[trigger] marks_k(ls[i], 2);
            assert(marks_automotive(ls[i]));
        }
    }
    assert(device_kind(tuned) == kind);
    // The same RAM.
    if back.len() == t.len() {
        assert forall|i: int| 0 <= i < back.len() implies #[trigger] same_ram_line(back[i], t[i]) by {
            lemma_same_trim_same_meaning(back[i], t[i]);
        }
        lemma_configured_ram_same(back, t);
    } else {
        let td = t.drop_last();
        assert forall|i: int| 0 <= i < back.len() implies #[trigger] same_ram_line(back[i], td[i]) by {
            assert(td[i] == t[i]);
            lemma_same_trim_same_meaning(back[i], t[i]);
        }
        lemma_configured_ram_same(back, td);
        assert(trim(t.last()) =~= seq![]);
        reveal_strlit("hw.ramSize=");
        lemma_configured_ram_push(td, t.last());
        assert(td.push(t.last()) =~= t);
    }
    // Every heap line reads the heap set, and one is there.
    assert forall|i: int|
        0 <= i < back.len() && has_key(#[trigger] back[i], "vm.heapSize="@) implies trim(back[i])
        == hl by {
        lemma_same_trim_same_meaning(back[i], t[i]);
    }
    if w < back.len() {
        lemma_same_trim_same_meaning(back[w], t[w]);
        assert(has_key(back[w], "vm.heapSize="@));
    } else {
        assert(w == t.len() - 1);
        assert(t.last() == hl);
        assert(hl.len() > 0);
    }
    assert(heap_tuned_config(content) == tuned);
    assert(device_kind(tuned) == device_kind(content));
    assert(configured_ram(lines(tuned)) == configured_ram(lines(content)));
    assert(exists|i: int|
        0 <= i < lines(tuned).len() && has_key(#[trigger] lines(tuned)[i], "vm.heapSize="@));
    assert(forall|i: int|
        0 <= i < lines(tuned).len() && has_key(#[trigger] lines(tuned)[i], "vm.heapSize="@)
            ==> trim(lines(tuned)[i]) == key_line("vm.heapSize="@, heap));
}

/// Heap tuning before a launch: the configured RAM size (MB), and the new config text
/// to write back.
pub fn tune_heap(content: &str) -> (r: (u64, String))
    ensures
        r.0 == configured_ram(lines(content@)),
        r.1@ == heap_tuned_config(content@),
{
    let cv = chars_of(content);
    let ls = split_lines(&cv);
    let kind = device_kind_of_lines(&ls);
    let ghost sl = views(ls@);
    let mut ram: u64 = 4096;
    let mut i: usize = 0;
    while i < ls.len()
        invariant
            i <= ls.len(),
            sl == views(ls@),
            ram == configured_ram(sl.take(i as int)),
        decreases ls.len() - i,
    {
        assert(sl.take(i + 1).drop_last() =~= sl.take(i as int));
        assert(sl[i as int] == ls@[i as int]@);
        if has_key_exec(&ls[i], "hw.ramSize=") {
            let t = trim_exec(&ls[i]);
            match second_field_exec(&t, '=') {
                Some(v) => {
                    ram = match crate::number::parse_u64_exec(&v) {
                        Some(n) => n,
                        None => 4096,
                    };
                },
                None => {},
            }
        }
        i += 1;
    }
    assert(sl.take(sl.len() as int) =~= sl);
    let heap = heap_size_exec(&kind, ram);
    let hv = chars_of(heap);
    let mut out: Vec<Vec<char>> = Vec::new();
    let mut found = false;
    let mut j: usize = 0;
    while j < ls.len()
        invariant
            j <= ls.len(),
            sl == views(ls@),
            hv@ == heap@,
            out@.len() == j,
            views(out@) == set_heap(sl.take(j as int), heap@),
            found == exists|k: int| 0 <= k < j && #[trigger] has_key(sl[k], "vm.heapSize="@),
        decreases ls.len() - j,
    {
        assert(sl[j as int] == ls@[j as int]@);
        let ghost prev = out@;
        if has_key_exec(&ls[j], "vm.heapSize=") {
            out.push(key_line_exec("vm.heapSize=", &hv));
            found = true;
        } else {
            out.push(ls[j].clone());
        }
        assert(out@ == prev.push(out@[j as int]));
        assert(views(out@) =~= views(prev).push(out@[j as int]@));
        assert(set_heap(sl.take(j + 1), heap@) =~= set_heap(sl.take(j as int), heap@).push(
            if has_key(sl[j as int], "vm.heapSize="@) {
                key_line("vm.heapSize="@, heap@)
            } else {
                sl[j as int]
            },
        ));
        j += 1;
    }
    assert(sl.take(sl.len() as int) =~= sl);
    if !found {
        out.push(key_line_exec("vm.heapSize=", &hv));
    }
    assert(views(out@) =~= heap_tuned_lines(sl, heap@));
    let nl = chars_of("\n");
    let joined = join_exec(&out, &nl);
    (ram, string_of(&joined))
}

// ───────────────────────────── special-image repair ─────────────────────────────

/// The line names a Wear OS, TV or Automotive image (the wider test of the repair).
pub open spec fn marks_special(line: Seq<char>) -> bool {
    let f = field_value(line);
    (is_tag_line(line) && (contains(f, "wear"@) || contains(f, "tv"@) || contains(f, "google-tv"@)
        || contains(f, "automotive"@))) || (is_sysdir_line(line) && (contains(f, "wear"@)
        || contains(f, "android-tv"@) || contains(f, "google-tv"@) || contains(
        f,
        "android-automotive"@,
    ) || contains(f, "automotive"@)))
}

/// Lines that a phone profile adds and a special image must not carry.
pub open spec fn is_display_override(line: Seq<char>) -> bool {
    has_key(line, "hw.lcd.width="@) || has_key(line, "hw.lcd.height="@) || has_key(
        line,
        "hw.lcd.density="@,
    ) || has_key(line, "skin.name="@) || has_key(line, "skin.path="@) || has_key(
        line,
        "hw.gpu.mode="@,
    ) || has_key(line, "hw.gpu.enabled="@) || has_key(line, "vm.heapSize="@)
}

/// `ls` without the display-override lines, in order.
pub open spec fn drop_display_overrides(ls: Seq<Seq<char>>) -> Seq<Seq<char>>
    decreases ls.len(),
{
    if ls.len() == 0 {
        seq![]
    } else {
        let r = drop_display_overrides(ls.drop_last());
        if is_display_override(ls.last()) {
            r
        } else {
            r.push(ls.last())
        }
    }
}

/// What the repair of a special image writes back: nothing unless a line names a
/// special image, else the config without display-override lines.
pub open spec fn repaired_special_config(content: Seq<char>) -> Option<Seq<char>> {
    let ls = lines(content);
    if exists|i: int| 0 <= i < ls.len() && #[trigger] marks_special(ls[i]) {
        Some(join(drop_display_overrides(ls), "\n"@))
    } else {
        None
    }
}

fn marks_special_exec(line: &Vec<char>) -> (r: bool)
    ensures
        r == marks_special(line@),
{
    let tag = has_key_exec(line, "tag.id=");
    let sys = has_key_exec(line, "image.sysdir.1=");
    if !tag && !sys {
        return false;
    }
    let f = field_value_exec(line);
    (tag && (contains_str(&f, "wear") || contains_str(&f, "tv") || contains_str(&f, "google-tv")
        || contains_str(&f, "automotive"))) || (sys && (contains_str(&f, "wear") || contains_str(
        &f,
        "android-tv",
    ) || contains_str(&f, "google-tv") || contains_str(&f, "android-automotive") || contains_str(
        &f,
        "automotive",
    )))
}

fn is_display_override_exec(line: &Vec<char>) -> (r: bool)
    ensures
        r == is_display_override(line@),
{
    has_key_exec(line, "hw.lcd.width=") || has_key_exec(line, "hw.lcd.height=") || has_key_exec(
        line,
        "hw.lcd.density=",
    ) || has_key_exec(line, "skin.name=") || has_key_exec(line, "skin.path=") || has_key_exec(
        line,
        "hw.gpu.mode=",
    ) || has_key_exec(line, "hw.gpu.enabled=") || has_key_exec(line, "vm.heapSize=")
}

/// What is left after dropping the override lines is free of them, and keeps every
/// other line.
proof fn lemma_drop_display_overrides(ls: Seq<Seq<char>>)
    ensures
        forall|k: int|
            0 <= k < drop_display_overrides(ls).len() ==> !is_display_override(
                #[trigger] drop_display_overrides(ls)[k],
            ),
        forall|j: int|
            0 <= j < ls.len() && !is_display_override(#[trigger] ls[j])
                ==> drop_display_overrides(ls).contains(ls[j]),
        forall|k: int|
            0 <= k < drop_display_overrides(ls).len() ==> ls.contains(
                #[trigger] drop_display_overrides(ls)[k],
            ),
    decreases ls.len(),
{
    if ls.len() > 0 {
        let p = ls.drop_last();
        lemma_drop_display_overrides(p);
        let r0 = drop_display_overrides(p);
        let r = drop_display_overrides(ls);
        assert forall|j: int| 0 <= j < ls.len() && !is_display_override(#[trigger] ls[j]) implies r.contains(
            ls[j],
        ) by {
            if j < p.len() {
                assert(p[j] == ls[j]);
                assert(r0.contains(p[j]));
                let k = choose|k: int| 0 <= k < r0.len() && r0[k] == p[j];
                if !is_display_override(ls.last()) {
                    assert(r == r0.push(ls.last()));
                    assert(r[k] == r0[k]);
                }
                assert(r.contains(ls[j]));
            } else {
                assert(r == r0.push(ls.last()));
                assert(r[r.len() - 1] == ls[j]);
            }
        }
        assert forall|k: int| 0 <= k < r.len() implies ls.contains(#[trigger] r[k]) by {
            if k < r0.len() {
                if !is_display_override(ls.last()) {
                    assert(r[k] == r0[k]);
                }
                assert(p.contains(r0[k]));
                let j = choose|j: int| 0 <= j < p.len() && p[j] == r0[k];
                assert(ls[j] == p[j]);
            } else {
                assert(r[k] == ls[ls.len() - 1]);
            }
        }
        if !is_display_override(ls.last()) {
            assert forall|k: int| 0 <= k < r.len() implies !is_display_override(#[trigger] r[k]) by {
                if k < r0.len() {
                    assert(r[k] == r0[k]);
                }
            }
        }
    }
}

/// Without override lines there is nothing to drop.
proof fn lemma_drop_display_overrides_none(ls: Seq<Seq<char>>)
    requires
        forall|k: int| 0 <= k < ls.len() ==> !is_display_override(#[trigger] ls[k]),
    ensures
        drop_display_overrides(ls) == ls,
    decreases ls.len(),
{
    if ls.len() > 0 {
        let p = ls.drop_last();
        assert forall|k: int| 0 <= k < p.len() implies !is_display_override(#[trigger] p[k]) by {
            assert(p[k] == ls[k]);
        }
        lemma_drop_display_overrides_none(p);
        assert(!is_display_override(ls[ls.len() - 1]));
        assert(p.push(ls.last()) =~= ls);
    }
}

/// A line naming a special image is no override line.
proof fn lemma_special_line_not_override(l: Seq<char>)
    requires
        marks_special(l),
    ensures
        !is_display_override(l),
        trim(l).len() > 0,
{
    reveal_strlit("tag.id=");
    reveal_strlit("image.sysdir.1=");
    reveal_strlit("hw.lcd.width=");
    reveal_strlit("hw.lcd.height=");
    reveal_strlit("hw.lcd.density=");
    reveal_strlit("skin.name=");
    reveal_strlit("skin.path=");
    reveal_strlit("hw.gpu.mode=");
    reveal_strlit("hw.gpu.enabled=");
    reveal_strlit("vm.heapSize=");
    let t = trim(l);
    if is_tag_line(l) {
        assert(t.subrange(0, 7)[0] == t[0]);
        assert(t[0] == 't');
    } else {
        assert(t.subrange(0, 15)[0] == t[0]);
        assert(t[0] == 'i');
    }
    assert(!starts_with(t, "hw.lcd.width="@)) by {
        if starts_with(t, "hw.lcd.width="@) {
            assert(t.subrange(0, 13)[0] == t[0]);
        }
    }
    assert(!starts_with(t, "hw.lcd.height="@)) by {
        if starts_with(t, "hw.lcd.height="@) {
            assert(t.subrange(0, 14)[0] == t[0]);
        }
    }
    assert(!starts_with(t, "hw.lcd.density="@)) by {
        if starts_with(t, "hw.lcd.density="@) {
            assert(t.subrange(0, 15)[0] == t[0]);
        }
    }
    assert(!starts_with(t, "skin.name="@)) by {
        if starts_with(t, "skin.name="@) {
            assert(t.subrange(0, 10)[0] == t[0]);
        }
    }
    assert(!starts_with(t, "skin.path="@)) by {
        if starts_with(t, "skin.path="@) {
            assert(t.subrange(0, 10)[0] == t[0]);
        }
    }
    assert(!starts_with(t, "hw.gpu.mode="@)) by {
        if starts_with(t, "hw.gpu.mode="@) {
            assert(t.subrange(0, 12)[0] == t[0]);
        }
    }
    assert(!starts_with(t, "hw.gpu.enabled="@)) by {
        if starts_with(t, "hw.gpu.enabled="@) {
            assert(t.subrange(0, 15)[0] == t[0]);
        }
    }
    assert(!starts_with(t, "vm.heapSize="@)) by {
        if starts_with(t, "vm.heapSize="@) {
            assert(t.subrange(0, 12)[0] == t[0]);
        }
    }
}

/// Read back, a repaired special config still names its special image, carries no
/// override line, and repairing it again rewrites the same lines.
pub(crate) proof fn lemma_special_repair_read_back(content: Seq<char>)
    requires
        repaired_special_config(content) is Some,
    ensures
        ({
            let rep = repaired_special_config(content).unwrap();
            &&& exists|i: int| 0 <= i < lines(rep).len() && #[trigger] marks_special(lines(rep)[i])
            &&& forall|i: int|
                0 <= i < lines(rep).len() ==> !is_display_override(#[trigger] lines(rep)[i])
            &&& repaired_special_config(rep) == Some(join(lines(rep), "\n"@))
        }),
{
    let ls = lines(content);
    let w = choose|i: int| 0 <= i < ls.len() && #[trigger] marks_special(ls[i]);
    let d = drop_display_overrides(ls);
    let rep = join(d, "\n"@);
    lemma_special_line_not_override(ls[w]);
    lemma_drop_display_overrides(ls);
    assert(d.contains(ls[w]));
    let k = choose|k: int| 0 <= k < d.len() && d[k] == ls[w];
    crate::text::lemma_lines_no_newline(content);
    assert forall|m: int| 0 <= m < d.len() implies crate::text::no_newline(#[trigger] d[m]) by {
        assert(ls.contains(d[m]));
        let j = choose|j: int| 0 <= j < ls.len() && ls[j] == d[m];
        assert(crate::text::no_newline(ls[j]));
    }
    crate::text::lemma_lines_of_join(d);
    let back = lines(rep);
    assert forall|i: int| 0 <= i < back.len() implies trim(#[trigger] back[i]) == trim(d[i]) by {
        if i < d.len() - 1 {
            assert(back[i] == crate::text::strip_cr(d[i]));
            crate::text::lemma_trim_strip_cr(d[i]);
        } else {
            assert(back[i] == d[i]);
        }
    }
    // The special line is read back.
    if k < d.len() - 1 {
        assert(back[k] == crate::text::strip_cr(d[k]));
        crate::text::lemma_trim_strip_cr(d[k]);
        assert(marks_special(back[k]));
    } else {
        assert(d.last().len() > 0);
        assert(back[k] == d[k]);
    }
    assert forall|i: int| 0 <= i < back.len() implies !is_display_override(#[trigger] back[i]) by {
        assert(trim(back[i]) == trim(d[i]));
        assert(!is_display_override(d[i]));
    }
    lemma_drop_display_overrides_none(back);
    assert(repaired_special_config(rep) == Some(join(back, "\n"@)));
}

/// Repair of a Wear OS, TV or Automotive config before a tuned launch: the new config
/// text, if any is to be written.
pub fn repair_special_config(content: &str) -> (r: Option<String>)
    ensures
        r matches Some(s) ==> repaired_special_config(content@) == Some(s@),
        r is None ==> repaired_special_config(content@) is None,
{
    let cv = chars_of(content);
    let ls = split_lines(&cv);
    let ghost sl = views(ls@);
    let mut special = false;
    let mut i: usize = 0;
    while i < ls.len()
        invariant
            i <= ls.len(),
            sl == views(ls@),
            special == exists|j: int| 0 <= j < i && #[trigger] marks_special(sl[j]),
        decreases ls.len() - i,
    {
        assert(sl[i as int] == ls@[i as int]@);
        special = special || marks_special_exec(&ls[i]);
        i += 1;
    }
    if !special {
        return None;
    }
    let mut out: Vec<Vec<char>> = Vec::new();
    let mut j: usize = 0;
    while j < ls.len()
        invariant
            j <= ls.len(),
            sl == views(ls@),
            views(out@) == drop_display_overrides(sl.take(j as int)),
        decreases ls.len() - j,
    {
        assert(sl.take(j + 1).drop_last() =~= sl.take(j as int));
        assert(sl[j as int] == ls@[j as int]@);
        if !is_display_override_exec(&ls[j]) {
            out.push(ls[j].clone());
        }
        assert(views(out@) =~= drop_display_overrides(sl.take(j + 1)));
        j += 1;
    }
    assert(sl.take(sl.len() as int) =~= sl);
    let nl = chars_of("\n");
    let joined = join_exec(&out, &nl);
    Some(string_of(&joined))
}


// ───────────────────────────── Wear OS lock ─────────────────────────────

/// A Wear OS config line after the lock: display size and skin lines dropped, the core
/// count set to 1 and the RAM to 1024 MB, anything else kept.
pub open spec fn wear_locked_line(line: Seq<char>) -> Option<Seq<char>> {
    if has_key(line, "hw.lcd.width="@) || has_key(line, "hw.lcd.height="@) || has_key(
        line,
        "hw.lcd.density="@,
    ) || has_key(line, "skin.name="@) || has_key(line, "skin.path="@) {
        None
    } else if has_key(line, "hw.cpu.ncore="@) {
        Some("hw.cpu.ncore=1"@)
    } else if has_key(line, "hw.ramSize="@) {
        Some("hw.ramSize=1024"@)
    } else {
        Some(line)
    }
}

pub open spec fn wear_locked_lines(ls: Seq<Seq<char>>) -> Seq<Seq<char>>
    decreases ls.len(),
{
    if ls.len() == 0 {
        seq![]
    } else {
        let r = wear_locked_lines(ls.drop_last());
        match wear_locked_line(ls.last()) {
            Some(l) => r.push(l),
            None => r,
        }
    }
}

/// What the Wear OS lock writes back: nothing unless the config names a Wear OS
/// image, else the locked config.
pub open spec fn wear_locked_config(content: Seq<char>) -> Option<Seq<char>> {
    if device_kind(content).wear {
        Some(join(wear_locked_lines(lines(content)), "\n"@))
    } else {
        None
    }
}

fn wear_locked_line_exec(line: &Vec<char>) -> (r: Option<Vec<char>>)
    ensures
        r matches Some(v) ==> wear_locked_line(line@) == Some(v@),
        r is None ==> wear_locked_line(line@) is None,
{
    if has_key_exec(line, "hw.lcd.width=") || has_key_exec(line, "hw.lcd.height=") || has_key_exec(
        line,
        "hw.lcd.density=",
    ) || has_key_exec(line, "skin.name=") || has_key_exec(line, "skin.path=") {
        None
    } else if has_key_exec(line, "hw.cpu.ncore=") {
        Some(chars_of("hw.cpu.ncore=1"))
    } else if has_key_exec(line, "hw.ramSize=") {
        Some(chars_of("hw.ramSize=1024"))
    } else {
        Some(line.clone())
    }
}

/// The Wear OS lock of a config: one core, 1 GB of RAM, no display size or skin. The
/// new config text, if it is to be written.
pub fn lock_wear_os_config(content: &str) -> (r: Option<String>)
    ensures
        r matches Some(s) ==> wear_locked_config(content@) == Some(s@),
        r is None ==> wear_locked_config(content@) is None,
{
    let cv = chars_of(content);
    let ls = split_lines(&cv);
    let kind = device_kind_of_lines(&ls);
    if !kind.wear {
        return None;
    }
    let ghost sl = views(ls@);
    let mut out: Vec<Vec<char>> = Vec::new();
    let mut j: usize = 0;
    while j < ls.len()
        invariant
            j <= ls.len(),
            sl == views(ls@),
            views(out@) == wear_locked_lines(sl.take(j as int)),
        decreases ls.len() - j,
    {
        assert(sl.take(j + 1).drop_last() =~= sl.take(j as int));
        assert(sl[j as int] == ls@[j as int]@);
        let ghost prev = out@;
        match wear_locked_line_exec(&ls[j]) {
            Some(l) => {
                out.push(l);
                assert(views(out@) =~= views(prev).push(out@[prev.len() as int]@));
            },
            None => {},
        }
        assert(views(out@) =~= wear_locked_lines(sl.take(j + 1)));
        j += 1;
    }
    assert(sl.take(sl.len() as int) =~= sl);
    let nl = chars_of("\n");
    let joined = join_exec(&out, &nl);
    Some(string_of(&joined))
}

// ───────────────────────────── settings edited by the user ─────────────────────────────

pub open spec fn min_nat(a: nat, b: nat) -> nat {
    if a <= b {
        a
    } else {
        b
    }
}

pub open spec fn max_nat(a: nat, b: nat) -> nat {
    if a >= b {
        a
    } else {
        b
    }
}

/// CPU cores kept for a device kind: Wear OS locked to 1, TV 1 to 2, Automotive 1 to 4;
/// a phone image keeps the requested count.
pub open spec fn clamped_cores(kind: DeviceKind, cores: nat) -> nat {
    if kind.wear {
        1
    } else if kind.tv {
        max_nat(min_nat(cores, 2), 1)
    } else if kind.automotive {
        max_nat(min_nat(cores, 4), 1)
    } else {
        cores
    }
}

/// RAM (MB) kept for a device kind: Wear OS locked to 1024, TV 1024..=2048, Automotive
/// 2048..=4096; a phone image keeps the requested size.
pub open spec fn clamped_ram(kind: DeviceKind, ram: nat) -> nat {
    if kind.wear {
        1024
    } else if kind.tv {
        max_nat(min_nat(ram, 2048), 1024)
    } else if kind.automotive {
        max_nat(min_nat(ram, 4096), 2048)
    } else {
        ram
    }
}

pub fn clamp_cores(kind: &DeviceKind, cores: u32) -> (r: u32)
    ensures
        r == clamped_cores(*kind, cores as nat),
{
    if kind.wear {
        1
    } else if kind.tv {
        if cores > 2 {
            2
        } else if cores < 1 {
            1
        } else {
            cores
        }
    } else if kind.automotive {
        if cores > 4 {
            4
        } else if cores < 1 {
            1
        } else {
            cores
        }
    } else {
        cores
    }
}

pub fn clamp_ram(kind: &DeviceKind, ram: u32) -> (r: u32)
    ensures
        r == clamped_ram(*kind, ram as nat),
{
    let (lo, hi): (u32, u32) = if kind.wear {
        (1024, 1024)
    } else if kind.tv {
        (1024, 2048)
    } else if kind.automotive {
        (2048, 4096)
    } else {
        return ram;
    };
    if ram > hi {
        hi
    } else if ram < lo {
        lo
    } else {
        ram
    }
}

/// The keys that an edit of the settings rewrites, in the order they are tested.
pub open spec fn edit_key(b: int) -> Seq<char> {
    if b == 0 {
        "hw.cpu.ncore="@
    } else if b == 1 {
        "hw.ramSize="@
    } else if b == 2 {
        "hw.gpu.mode="@
    } else if b == 3 {
        "vm.heapSize="@
    } else if b == 4 {
        "hw.lcd.width="@
    } else if b == 5 {
        "hw.lcd.height="@
    } else if b == 6 {
        "hw.lcd.density="@
    } else {
        "skin.name="@
    }
}

pub fn edit_key_exec(b: usize) -> (r: &'static str)
    requires
        b < 8,
    ensures
        r@ == edit_key(b as int),
{
    if b == 0 {
        "hw.cpu.ncore="
    } else if b == 1 {
        "hw.ramSize="
    } else if b == 2 {
        "hw.gpu.mode="
    } else if b == 3 {
        "vm.heapSize="
    } else if b == 4 {
        "hw.lcd.width="
    } else if b == 5 {
        "hw.lcd.height="
    } else if b == 6 {
        "hw.lcd.density="
    } else {
        "skin.name="
    }
}

/// The first edited key that a line carries (8: none).
pub open spec fn edit_branch(line: Seq<char>) -> int {
    if has_key(line, edit_key(0)) {
        0
    } else if has_key(line, edit_key(1)) {
        1
    } else if has_key(line, edit_key(2)) {
        2
    } else if has_key(line, edit_key(3)) {
        3
    } else if has_key(line, edit_key(4)) {
        4
    } else if has_key(line, edit_key(5)) {
        5
    } else if has_key(line, edit_key(6)) {
        6
    } else if has_key(line, edit_key(7)) {
        7
    } else {
        8
    }
}

fn edit_branch_exec(line: &Vec<char>) -> (r: usize)
    ensures
        r as int == edit_branch(line@),
{
    let mut b: usize = 0;
    while b < 8
        invariant
            b <= 8,
            forall|k: int| 0 <= k < b ==> !has_key(line@, #[trigger] edit_key(k)),
        decreases 8 - b,
    {
        if has_key_exec(line, edit_key_exec(b)) {
            return b;
        }
        b += 1;
    }
    assert(!has_key(line@, edit_key(7)));
    8
}

/// Whether the edit sets key `b`: the core count, RAM, GPU mode and heap always, the
/// display size and skin only with a resolution, the density only with a DPI.
pub open spec fn edit_applies(b: int, set_res: bool, set_dpi: bool) -> bool {
    (0 <= b <= 3) || ((b == 4 || b == 5 || b == 7) && set_res) || (b == 6 && set_dpi)
}

/// A config line after the edit; `vals[b]` is the new value of key `b`.
pub open spec fn edited_line(line: Seq<char>, vals: Seq<Seq<char>>, set_res: bool, set_dpi: bool) -> Seq<
    char,
> {
    let b = edit_branch(line);
    if b < 8 && edit_applies(b, set_res, set_dpi) {
        key_line(edit_key(b), vals[b])
    } else {
        line
    }
}

/// Some line of `ls` had key `b` set by the edit.
pub open spec fn edit_found(ls: Seq<Seq<char>>, b: int, set_res: bool, set_dpi: bool) -> bool {
    edit_applies(b, set_res, set_dpi) && exists|i: int|
        0 <= i < ls.len() && #[trigger] edit_branch(ls[i]) == b
}

/// The line for key `b` appended when the edit sets it and no line carried it.
pub open spec fn edit_appended(ls: Seq<Seq<char>>, vals: Seq<Seq<char>>, b: int, set_res: bool, set_dpi: bool) -> Seq<Seq<char>> {
    if edit_applies(b, set_res, set_dpi) && !edit_found(ls, b, set_res, set_dpi) {
        seq![key_line(edit_key(b), vals[b])]
    } else {
        seq![]
    }
}

/// All lines of a config after the edit: each line edited in place, then the missing
/// keys appended in the order cores, RAM, GPU, heap, width, height, skin, density.
pub open spec fn edited_lines(ls: Seq<Seq<char>>, vals: Seq<Seq<char>>, set_res: bool, set_dpi: bool) -> Seq<Seq<char>> {
    ls.map_values(|l: Seq<char>| edited_line(l, vals, set_res, set_dpi)) + appended_upto(
        ls,
        vals,
        set_res,
        set_dpi,
        8,
    )
}

/// Width and height of a resolution `WxH`, 1280x720 where there is none or no `x`.
pub open spec fn resolution_dims(res: Option<Seq<char>>) -> (Seq<char>, Seq<char>) {
    match res {
        Some(r) => match crate::text::split_once(r, 'x') {
            Some(p) => p,
            None => ("1280"@, "720"@),
        },
        None => ("1280"@, "720"@),
    }
}

pub open spec fn opt_view(o: Option<&str>) -> Option<Seq<char>> {
    match o {
        Some(s) => Some(s@),
        None => None,
    }
}

/// The new values of the edited keys, indexed as `edit_key`.
pub open spec fn edit_values(
    kind: DeviceKind,
    cores: Seq<char>,
    ram: Seq<char>,
    gpu: Seq<char>,
    res: Option<Seq<char>>,
    dpi: Option<Seq<char>>,
) -> Seq<Seq<char>> {
    let user_cores = match crate::number::parse_u32(cores) {
        Some(v) => v as nat,
        None => 4,
    };
    let user_ram = match crate::number::parse_u32(ram) {
        Some(v) => v as nat,
        None => 4096,
    };
    let final_ram = clamped_ram(kind, user_ram);
    let dims = resolution_dims(res);
    seq![
        crate::number::decimal(clamped_cores(kind, user_cores)),
        crate::number::decimal(final_ram),
        gpu,
        heap_size_for(kind, final_ram),
        dims.0,
        dims.1,
        match dpi {
            Some(d) => d,
            None => "240"@,
        },
        match res {
            Some(r) => r,
            None => seq![],
        },
    ]
}

/// What an edit of an AVD's settings writes back: the config with the core count, RAM,
/// GPU mode and heap set (a Wear OS, TV or Automotive image kept within its locked
/// resources and given its heap), and with the display size, skin and density set where
/// given (never on Wear OS).
pub open spec fn edited_config(
    content: Seq<char>,
    cores: Seq<char>,
    ram: Seq<char>,
    gpu: Seq<char>,
    res: Option<Seq<char>>,
    dpi: Option<Seq<char>>,
) -> Seq<char> {
    let kind = device_kind(content);
    let set_res = !kind.wear && res is Some;
    let set_dpi = !kind.wear && dpi is Some;
    join(
        edited_lines(lines(content), edit_values(kind, cores, ram, gpu, res, dpi), set_res, set_dpi),
        "\n"@,
    )
}

/// Some key that the edit sets is on no line of `ls`, so its line is appended.
pub open spec fn edit_adds(ls: Seq<Seq<char>>, set_res: bool, set_dpi: bool) -> bool {
    exists|b: int|
        #![trigger edit_found(ls, b, set_res, set_dpi)]
        0 <= b < 8 && edit_applies(b, set_res, set_dpi) && !edit_found(ls, b, set_res, set_dpi)
}

/// Whether an edit of `content` reads back line for line as it was written: a line that
/// the edit keeps and that ends in a carriage return stays the last line written, and an
/// empty last line gets a key line added after it.
pub open spec fn edit_reads_back(content: Seq<char>, res: Option<Seq<char>>, dpi: Option<Seq<char>>) -> bool {
    let ls = lines(content);
    let kind = device_kind(content);
    let sr = !kind.wear && res is Some;
    let sd = !kind.wear && dpi is Some;
    let adds = edit_adds(ls, sr, sd);
    &&& forall|i: int|
        0 <= i < ls.len() && crate::text::strip_cr(#[trigger] ls[i]) != ls[i] && edit_keeps(
            ls[i],
            sr,
            sd,
        ) ==> i == ls.len() - 1 && !adds
    &&& (ls.len() > 0 && ls.last().len() == 0) ==> adds
}

/// The edit keeps the line as it is: it carries none of the keys the edit sets.
pub open spec fn edit_keeps(line: Seq<char>, set_res: bool, set_dpi: bool) -> bool {
    !(edit_branch(line) < 8 && edit_applies(edit_branch(line), set_res, set_dpi))
}

/// The lines an edit of an AVD's settings writes, before they are joined.
pub open spec fn edit_written_lines(
    content: Seq<char>,
    cores: Seq<char>,
    ram: Seq<char>,
    gpu: Seq<char>,
    res: Option<Seq<char>>,
    dpi: Option<Seq<char>>,
) -> Seq<Seq<char>> {
    let kind = device_kind(content);
    let set_res = !kind.wear && res is Some;
    let set_dpi = !kind.wear && dpi is Some;
    edited_lines(lines(content), edit_values(kind, cores, ram, gpu, res, dpi), set_res, set_dpi)
}

/// Whether written lines `w` of a config with lines `ls` read back settled: no kept line
/// before the last line read back ends in two carriage returns (reading drops one each
/// time), and where `w` ends in an empty line (which reading drops), the line before it is
/// not empty without its carriage return and, unless it is a kept line, has none.
pub open spec fn lines_settle(ls: Seq<Seq<char>>, w: Seq<Seq<char>>, set_res: bool, set_dpi: bool) -> bool {
    let n = w.len() as int;
    let last_read = if w.last().len() == 0 {
        n - 2
    } else {
        n - 1
    };
    &&& forall|j: int|
        0 <= j < last_read && j < ls.len() && #[trigger] edit_keeps(ls[j], set_res, set_dpi)
            ==> strip_cr(strip_cr(ls[j])) == strip_cr(ls[j])
    &&& w.last().len() == 0 ==> n >= 2 && strip_cr(w[n - 2]).len() > 0 && ((n - 2 < ls.len()
        && edit_keeps(ls[n - 2], set_res, set_dpi)) || strip_cr(w[n - 2]) == w[n - 2])
}

/// Whether the lines an edit of `content` writes read back settled (`lines_settle`).
pub open spec fn edit_lines_settle(
    content: Seq<char>,
    cores: Seq<char>,
    ram: Seq<char>,
    gpu: Seq<char>,
    res: Option<Seq<char>>,
    dpi: Option<Seq<char>>,
) -> bool {
    let kind = device_kind(content);
    lines_settle(
        lines(content),
        edit_written_lines(content, cores, ram, gpu, res, dpi),
        !kind.wear && res is Some,
        !kind.wear && dpi is Some,
    )
}

fn values_exec(
    kind: &DeviceKind,
    cores: &str,
    ram: &str,
    gpu: &str,
    resolution: Option<&str>,
    dpi: Option<&str>,
) -> (r: Vec<Vec<char>>)
    ensures
        views(r@) == edit_values(*kind, cores@, ram@, gpu@, opt_view(resolution), opt_view(dpi)),
        r@.len() == 8,
{
    let user_cores: u32 = match crate::number::parse_u32_exec(&chars_of(cores)) {
        Some(v) => v,
        None => 4,
    };
    let user_ram: u32 = match crate::number::parse_u32_exec(&chars_of(ram)) {
        Some(v) => v,
        None => 4096,
    };
    let final_cores = clamp_cores(kind, user_cores);
    let final_ram = clamp_ram(kind, user_ram);
    let heap = heap_size_exec(kind, final_ram as u64);
    let (w, h) = match resolution {
        Some(r) => match crate::text::split_once_exec(&chars_of(r), 'x') {
            Some(p) => p,
            None => (chars_of("1280"), chars_of("720")),
        },
        None => (chars_of("1280"), chars_of("720")),
    };
    let density = match dpi {
        Some(d) => chars_of(d),
        None => chars_of("240"),
    };
    let skin = match resolution {
        Some(r) => chars_of(r),
        None => Vec::new(),
    };
    let mut v: Vec<Vec<char>> = Vec::new();
    v.push(crate::number::decimal_exec(final_cores as u64));
    v.push(crate::number::decimal_exec(final_ram as u64));
    v.push(chars_of(gpu));
    v.push(chars_of(heap));
    v.push(w);
    v.push(h);
    v.push(density);
    v.push(skin);
    assert(views(v@) =~= edit_values(
        *kind,
        cores@,
        ram@,
        gpu@,
        opt_view(resolution),
        opt_view(dpi),
    ));
    v
}

fn edit_in_place(ls: &Vec<Vec<char>>, vals: &Vec<Vec<char>>, set_res: bool, set_dpi: bool) -> (r: (
    Vec<Vec<char>>,
    Vec<bool>,
))
    requires
        vals@.len() == 8,
    ensures
        views(r.0@) == views(ls@).map_values(
            |l: Seq<char>| edited_line(l, views(vals@), set_res, set_dpi),
        ),
        r.1@.len() == 8,
        forall|b: int|
            0 <= b < 8 ==> #[trigger] r.1@[b] == edit_found(views(ls@), b, set_res, set_dpi),
{
    let ghost sl = views(ls@);
    let ghost vs = views(vals@);
    let mut found: Vec<bool> = vec![false, false, false, false, false, false, false, false];
    let mut out: Vec<Vec<char>> = Vec::new();
    let mut i: usize = 0;
    while i < ls.len()
        invariant
            i <= ls.len(),
            sl == views(ls@),
            vs == views(vals@),
            vals@.len() == 8,
            found@.len() == 8,
            out@.len() == i,
            views(out@) == sl.take(i as int).map_values(
                |l: Seq<char>| edited_line(l, vs, set_res, set_dpi),
            ),
            forall|b: int|
                0 <= b < 8 ==> #[trigger] found@[b] == (edit_applies(b, set_res, set_dpi) && exists|
                    j: int,
                | 0 <= j < i && #[trigger] edit_branch(sl[j]) == b),
        decreases ls.len() - i,
    {
        assert(sl[i as int] == ls@[i as int]@);
        let b = edit_branch_exec(&ls[i]);
        let applies = b <= 3 || ((b == 4 || b == 5 || b == 7) && set_res) || (b == 6 && set_dpi);
        let ghost prev = out@;
        let ghost prev_found = found@;
        if b < 8 && applies {
            out.push(key_line_exec(edit_key_exec(b), &vals[b]));
            found.set(b, true);
        } else {
            out.push(ls[i].clone());
        }
        proof {
            assert(out@ == prev.push(out@[i as int]));
            assert(views(out@) =~= views(prev).push(out@[i as int]@));
            assert(sl.take(i + 1).map_values(|l: Seq<char>| edited_line(l, vs, set_res, set_dpi))
                =~= sl.take(i as int).map_values(
                |l: Seq<char>| edited_line(l, vs, set_res, set_dpi),
            ).push(edited_line(sl[i as int], vs, set_res, set_dpi)));
            assert forall|c: int| 0 <= c < 8 implies #[trigger] found@[c] == (edit_applies(
                c,
                set_res,
                set_dpi,
            ) && exists|j: int| 0 <= j < i + 1 && #[trigger] edit_branch(sl[j]) == c) by {
                if edit_applies(c, set_res, set_dpi) && edit_branch(sl[i as int]) == c {
                    assert(found@[c]);
                }
                if found@[c] && !prev_found[c] {
                    assert(edit_branch(sl[i as int]) == c);
                }
            }
        }
        i += 1;
    }
    assert(sl.take(sl.len() as int) =~= sl);
    (out, found)
}

fn append_missing(
    out: &mut Vec<Vec<char>>,
    found: &Vec<bool>,
    vals: &Vec<Vec<char>>,
    set_res: bool,
    set_dpi: bool,
    ls: Ghost<Seq<Seq<char>>>,
)
    requires
        vals@.len() == 8,
        found@.len() == 8,
        forall|b: int| 0 <= b < 8 ==> #[trigger] found@[b] == edit_found(ls@, b, set_res, set_dpi),
    ensures
        views(final(out)@) == views(old(out)@) + appended_upto(
            ls@,
            views(vals@),
            set_res,
            set_dpi,
            8,
        ),
{
    let ghost vs = views(vals@);
    let ghost base = views(out@);
    let order: [usize; 8] = [0, 1, 2, 3, 4, 5, 7, 6];
    let mut k: usize = 0;
    assert(base + appended_upto(ls@, vs, set_res, set_dpi, 0) =~= base);
    while k < 8
        invariant
            k <= 8,
            vs == views(vals@),
            vals@.len() == 8,
            found@.len() == 8,
            order@ == seq![0usize, 1, 2, 3, 4, 5, 7, 6],
            forall|b: int|
                0 <= b < 8 ==> #[trigger] found@[b] == edit_found(ls@, b, set_res, set_dpi),
            views(out@) == base + appended_upto(ls@, vs, set_res, set_dpi, k as int),
        decreases 8 - k,
    {
        let b = order[k];
        let applies = b <= 3 || ((b == 4 || b == 5 || b == 7) && set_res) || (b == 6 && set_dpi);
        let ghost prev = out@;
        if applies && !found[b] {
            out.push(key_line_exec(edit_key_exec(b), &vals[b]));
            assert(views(out@) =~= views(prev).push(out@[prev.len() as int]@));
        }
        assert(views(out@) =~= base + appended_upto(ls@, vs, set_res, set_dpi, k + 1));
        k += 1;
    }
}

/// An edit of an AVD's settings: the new config text to write back.
pub fn edit_avd_config(
    content: &str,
    cores: &str,
    ram: &str,
    gpu: &str,
    resolution: Option<&str>,
    dpi: Option<&str>,
) -> (r: String)
    ensures
        r@ == edited_config(content@, cores@, ram@, gpu@, opt_view(resolution), opt_view(dpi)),
{
    let cv = chars_of(content);
    let ls = split_lines(&cv);
    let kind = device_kind_of_lines(&ls);
    let ghost sl = views(ls@);
    let vals = values_exec(&kind, cores, ram, gpu, resolution, dpi);
    let ghost vs = views(vals@);
    let set_res = !kind.wear && resolution.is_some();
    let set_dpi = !kind.wear && dpi.is_some();
    let (mut out, found) = edit_in_place(&ls, &vals, set_res, set_dpi);
    append_missing(&mut out, &found, &vals, set_res, set_dpi, Ghost(sl));
    let nl = chars_of("\n");
    let joined = join_exec(&out, &nl);
    string_of(&joined)
}

/// The appended lines for the first `k` keys of the order cores, RAM, GPU, heap, width,
/// height, skin, density.
pub open spec fn appended_upto(ls: Seq<Seq<char>>, vals: Seq<Seq<char>>, set_res: bool, set_dpi: bool, k: int) -> Seq<Seq<char>>
    decreases k,
{
    if k <= 0 {
        seq![]
    } else {
        let b = if k - 1 == 6 {
            7
        } else if k - 1 == 7 {
            6
        } else {
            k - 1
        };
        appended_upto(ls, vals, set_res, set_dpi, k - 1) + edit_appended(ls, vals, b, set_res, set_dpi)
    }
}

} // verus!
