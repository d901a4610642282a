//! Reading back what an edit of an AVD's settings wrote.
use vstd::prelude::*;
use crate::avd::value_from;
use crate::config::{
    device_kind, edit_appended, edit_applies, edit_branch, edit_found, edit_key, edit_values,
    edit_keeps, edited_config, edited_line, edited_lines, has_key, key_line, appended_upto,
    marks_k,
};
use crate::text::{
    find_char, is_white_space, lines, no_newline, starts_with, strip_cr, trim,
};

verus! {

proof fn lemma_edit_key_facts(b: int)
    requires
        0 <= b < 8,
    ensures
        edit_key(b).len() >= 10,
        no_newline(edit_key(b)),
        !is_white_space(edit_key(b)[0]),
        edit_key(b).last() == '=',
        !is_white_space(edit_key(b).last()),
{
    reveal_strlit("hw.cpu.ncore=");
    reveal_strlit("hw.ramSize=");
    reveal_strlit("hw.gpu.mode=");
    reveal_strlit("vm.heapSize=");
    reveal_strlit("hw.lcd.width=");
    reveal_strlit("hw.lcd.height=");
    reveal_strlit("hw.lcd.density=");
    reveal_strlit("skin.name=");
}

/// The core-count, RAM, GPU and heap keys differ from every other edited key in their
/// first or fourth character.
proof fn lemma_edit_keys_differ(b: int, t: int)
    requires
        0 <= b < 8,
        0 <= t <= 3,
        b != t,
    ensures
        edit_key(b)[0] != edit_key(t)[0] || edit_key(b)[3] != edit_key(t)[3],
{
    reveal_strlit("hw.cpu.ncore=");
    reveal_strlit("hw.ramSize=");
    reveal_strlit("hw.gpu.mode=");
    reveal_strlit("vm.heapSize=");
    reveal_strlit("hw.lcd.width=");
    reveal_strlit("hw.lcd.height=");
    reveal_strlit("hw.lcd.density=");
    reveal_strlit("skin.name=");
}

/// Key `b`'s line, with or without one trailing carriage return, starts with key `t` only
/// for `b == t`, and then holds the value (up to trimming).
proof fn lemma_key_line_prefix(b: int, t: int, v: Seq<char>, x: Seq<char>)
    requires
        0 <= b < 8,
        0 <= t <= 3,
        x == key_line(edit_key(b), v) || x == strip_cr(key_line(edit_key(b), v)),
    ensures
        starts_with(x, edit_key(t)) ==> b == t,
        b == t ==> starts_with(x, edit_key(t)) && trim(
            x.subrange(edit_key(t).len() as int, x.len() as int),
        ) == trim(v),
{
    lemma_edit_key_facts(b);
    lemma_edit_key_facts(t);
    let k = edit_key(b);
    let kl = key_line(k, v);
    assert(x.len() >= k.len());
    assert forall|i: int| 0 <= i < k.len() implies x[i] == k[i] by {
        assert(kl[i] == k[i]);
    }
    if b != t {
        lemma_edit_keys_differ(b, t);
        if starts_with(x, edit_key(t)) {
            assert(x.subrange(0, edit_key(t).len() as int)[0] == x[0]);
            assert(x.subrange(0, edit_key(t).len() as int)[3] == x[3]);
        }
    } else {
        assert(x.subrange(0, k.len() as int) =~= k);
        if x == kl {
            assert(x.subrange(k.len() as int, x.len() as int) =~= v);
        } else {
            assert(x.subrange(k.len() as int, x.len() as int) =~= strip_cr(v));
            crate::text::lemma_trim_strip_cr(v);
        }
    }
}

/// A config line that the edit leaves as it is does not start with the core-count, RAM,
/// GPU or heap key, with or without a trailing carriage return.
proof fn lemma_untouched_line(l: Seq<char>, vals: Seq<Seq<char>>, sr: bool, sd: bool, t: int)
    requires
        0 <= t <= 3,
        !(edit_branch(l) < 8 && edit_applies(edit_branch(l), sr, sd)),
    ensures
        !starts_with(l, edit_key(t)),
        !starts_with(strip_cr(l), edit_key(t)),
{
    lemma_edit_key_facts(t);
    assert(!has_key(l, edit_key(t)));
    if starts_with(l, edit_key(t)) {
        crate::text::lemma_trim_keeps_key(l, edit_key(t));
    }
    if starts_with(strip_cr(l), edit_key(t)) {
        crate::text::lemma_trim_keeps_key(strip_cr(l), edit_key(t));
        crate::text::lemma_trim_strip_cr(l);
    }
}

/// Each appended line is the line of a key that the edit sets.
pub open spec fn set_key_line(e: Seq<char>, vals: Seq<Seq<char>>, sr: bool, sd: bool) -> bool {
    exists|b: int|
        0 <= b < 8 && edit_applies(b, sr, sd) && e == #[trigger] key_line(edit_key(b), vals[b])
}

proof fn lemma_appended(ls: Seq<Seq<char>>, vals: Seq<Seq<char>>, sr: bool, sd: bool, k: int)
    requires
        0 <= k <= 8,
    ensures
        forall|m: int|
            0 <= m < appended_upto(ls, vals, sr, sd, k).len() ==> set_key_line(
                #[trigger] appended_upto(ls, vals, sr, sd, k)[m],
                vals,
                sr,
                sd,
            ),
        forall|t: int|
            0 <= t <= 3 && t < k && !edit_found(ls, t, sr, sd) ==> appended_upto(
                ls,
                vals,
                sr,
                sd,
                k,
            ).contains(#[trigger] key_line(edit_key(t), vals[t])),
    decreases k,
{
    if k > 0 {
        lemma_appended(ls, vals, sr, sd, k - 1);
        let p = appended_upto(ls, vals, sr, sd, k - 1);
        let b = if k - 1 == 6 {
            7
        } else if k - 1 == 7 {
            6
        } else {
            k - 1
        };
        let a = edit_appended(ls, vals, b, sr, sd);
        let r = appended_upto(ls, vals, sr, sd, k);
        assert(r == p + a);
        assert forall|m: int| 0 <= m < r.len() implies set_key_line(#[trigger] r[m], vals, sr, sd) by {
            if m < p.len() {
                assert(r[m] == p[m]);
            } else {
                assert(r[m] == key_line(edit_key(b), vals[b]));
            }
        }
        assert forall|t: int|
            0 <= t <= 3 && t < k && !edit_found(ls, t, sr, sd) implies r.contains(
                #[trigger] key_line(edit_key(t), vals[t]),
            ) by {
            if t < k - 1 {
                assert(p.contains(key_line(edit_key(t), vals[t])));
                let m = choose|m: int| 0 <= m < p.len() && p[m] == key_line(edit_key(t), vals[t]);
                assert(r[m] == p[m]);
            } else {
                assert(b == t);
                assert(edit_applies(t, sr, sd));
                assert(r[p.len() as int] == key_line(edit_key(t), vals[t]));
            }
        }
    }
}

/// The values an edit writes hold no line break where the edit writes them.
proof fn lemma_values_no_newline(
    kind: crate::config::DeviceKind,
    cores: Seq<char>,
    ram: Seq<char>,
    gpu: Seq<char>,
    res: Option<Seq<char>>,
    dpi: Option<Seq<char>>,
    b: int,
)
    requires
        0 <= b < 8,
        edit_applies(b, !kind.wear && res is Some, !kind.wear && dpi is Some),
        no_newline(gpu),
        res matches Some(r) ==> (kind.wear || no_newline(r)),
        dpi matches Some(d) ==> (kind.wear || no_newline(d)),
    ensures
        no_newline(edit_values(kind, cores, ram, gpu, res, dpi)[b]),
{
    let vals = edit_values(kind, cores, ram, gpu, res, dpi);
    reveal_strlit("128");
    reveal_strlit("256");
    reveal_strlit("512");
    reveal_strlit("1024");
    reveal_strlit("1280");
    reveal_strlit("720");
    reveal_strlit("240");
    if b == 0 || b == 1 {
        crate::laws::lemma_decimal_digits(
            if b == 0 {
                crate::config::clamped_cores(
                    kind,
                    match crate::number::parse_u32(cores) {
                        Some(v) => v as nat,
                        None => 4,
                    },
                )
            } else {
                crate::config::clamped_ram(
                    kind,
                    match crate::number::parse_u32(ram) {
                        Some(v) => v as nat,
                        None => 4096,
                    },
                )
            },
        );
        assert forall|i: int| 0 <= i < vals[b].len() implies vals[b][i] != '\n' by {
            assert(crate::text::is_ascii_digit(vals[b][i]));
        }
    } else if b == 4 || b == 5 {
        let r = res.unwrap();
        if let Some(q) = find_char(r, 'x') {
            crate::text::lemma_find_char_from_bounds(r, 'x', 0);
            assert forall|i: int| 0 <= i < vals[b].len() implies vals[b][i] != '\n' by {
                if b == 4 {
                    assert(vals[b][i] == r[i]);
                } else {
                    assert(vals[b][i] == r[q + 1 + i]);
                }
            }
        }
    }
}

/// `value_from` finds the value that every matching line from `i` on carries.
proof fn lemma_value_from_all(ls: Seq<Seq<char>>, k: Seq<char>, i: int, v: Seq<char>)
    requires
        0 <= i,
        exists|j: int| i <= j < ls.len() && #[trigger] starts_with(ls[j], k),
        forall|j: int|
            i <= j < ls.len() && #[trigger] starts_with(ls[j], k) ==> trim(
                ls[j].subrange(k.len() as int, ls[j].len() as int),
            ) == v,
    ensures
        value_from(ls, k, i) == v,
    decreases ls.len() - i,
{
    if !starts_with(ls[i], k) {
        let j = choose|j: int| i <= j < ls.len() && #[trigger] starts_with(ls[j], k);
        assert(j != i);
        lemma_value_from_all(ls, k, i + 1, v);
    }
}

/// Read back, an edited config gives the core count, RAM size, GPU mode and heap that the
/// edit wrote (`t` is 0, 1, 2 or 3).
pub(crate) proof fn lemma_edit_read_back(
    content: Seq<char>,
    cores: Seq<char>,
    ram: Seq<char>,
    gpu: Seq<char>,
    res: Option<Seq<char>>,
    dpi: Option<Seq<char>>,
    t: int,
)
    requires
        0 <= t <= 3,
        no_newline(gpu),
        res matches Some(r) ==> no_newline(r),
        dpi matches Some(d) ==> no_newline(d),
    ensures
        value_from(
            lines(edited_config(content, cores, ram, gpu, res, dpi)),
            edit_key(t),
            0,
        ) == trim(edit_values(device_kind(content), cores, ram, gpu, res, dpi)[t]),
{
    let kind = device_kind(content);
    let ls = lines(content);
    let vals = edit_values(kind, cores, ram, gpu, res, dpi);
    let sr = !kind.wear && res is Some;
    let sd = !kind.wear && dpi is Some;
    let e = edited_lines(ls, vals, sr, sd);
    let mapped = ls.map_values(|l: Seq<char>| edited_line(l, vals, sr, sd));
    let app = appended_upto(ls, vals, sr, sd, 8);
    assert(e == mapped + app);
    let kt = edit_key(t);
    let target = key_line(kt, vals[t]);
    lemma_appended(ls, vals, sr, sd, 8);
    crate::text::lemma_lines_no_newline(content);
    // Every edited line is free of line breaks, and starts with key `t` only if it is
    // key `t`'s line.
    assert forall|i: int| 0 <= i < e.len() implies no_newline(#[trigger] e[i]) && (
    starts_with(e[i], kt) || starts_with(strip_cr(e[i]), kt) ==> e[i] == target) by {
        let b: int = if i < mapped.len() {
            if edit_branch(ls[i]) < 8 && edit_applies(edit_branch(ls[i]), sr, sd) {
                edit_branch(ls[i])
            } else {
                -1
            }
        } else {
            choose|b: int|
                0 <= b < 8 && edit_applies(b, sr, sd) && app[i - mapped.len()] == #[trigger] key_line(
                    edit_key(b),
                    vals[b],
                )
        };
        if i < mapped.len() {
            let l = ls[i];
            assert(e[i] == edited_line(l, vals, sr, sd));
            if b >= 0 {
                assert(e[i] == key_line(edit_key(b), vals[b]));
            } else {
                assert(e[i] == l);
                assert(no_newline(l));
                lemma_untouched_line(l, vals, sr, sd, t);
            }
        } else {
            assert(e[i] == app[i - mapped.len()]);
            assert(set_key_line(app[i - mapped.len()], vals, sr, sd));
        }
        if b >= 0 {
            lemma_edit_key_facts(b);
            lemma_values_no_newline(kind, cores, ram, gpu, res, dpi, b);
            assert forall|m: int| 0 <= m < e[i].len() implies e[i][m] != '\n' by {
                if m < edit_key(b).len() {
                    assert(e[i][m] == edit_key(b)[m]);
                } else {
                    assert(e[i][m] == vals[b][m - edit_key(b).len()]);
                }
            }
            lemma_key_line_prefix(b, t, vals[b], e[i]);
            lemma_key_line_prefix(b, t, vals[b], strip_cr(e[i]));
        }
    }
    // Key `t`'s line is there: edited in place or appended.
    let w: int = if edit_found(ls, t, sr, sd) {
        let j = choose|j: int| 0 <= j < ls.len() && #[trigger] edit_branch(ls[j]) == t;
        assert(e[j] == edited_line(ls[j], vals, sr, sd));
        j
    } else {
        assert(app.contains(target));
        let m = choose|m: int| 0 <= m < app.len() && app[m] == target;
        assert(e[mapped.len() + m] == app[m]);
        mapped.len() + m
    };
    assert(e[w] == target);
    // Reading the joined lines back.
    crate::text::lemma_lines_of_join(e);
    let back = lines(crate::text::join(e, "\n"@));
    assert(edited_config(content, cores, ram, gpu, res, dpi) == crate::text::join(e, "\n"@));
    assert forall|i: int| 0 <= i < back.len() && #[trigger] starts_with(back[i], kt) implies trim(
        back[i].subrange(kt.len() as int, back[i].len() as int),
    ) == trim(vals[t]) by {
        if i < e.len() - 1 {
            assert(back[i] == strip_cr(e[i]));
            assert(e[i] == target);
            lemma_key_line_prefix(t, t, vals[t], back[i]);
        } else {
            assert(back[i] == e[i]);
            lemma_key_line_prefix(t, t, vals[t], back[i]);
        }
    }
    lemma_edit_key_facts(t);
    if w < e.len() - 1 {
        assert(back[w] == strip_cr(e[w]));
        lemma_key_line_prefix(t, t, vals[t], back[w]);
    } else {
        assert(e.last().len() > 0);
        assert(back[w] == e[w]);
        lemma_key_line_prefix(t, t, vals[t], back[w]);
    }
    assert(starts_with(back[w], kt));
    lemma_value_from_all(back, kt, 0, trim(vals[t]));
}

/// Two edited keys differ in their first, fourth or eighth character.
proof fn lemma_keys_distinct(b: int, c: int)
    requires
        0 <= b < 8,
        0 <= c < 8,
        b != c,
    ensures
        edit_key(b)[0] != edit_key(c)[0] || edit_key(b)[3] != edit_key(c)[3] || edit_key(b)[7]
            != edit_key(c)[7],
{
    reveal_strlit("hw.cpu.ncore=");
    reveal_strlit("hw.ramSize=");
    reveal_strlit("hw.gpu.mode=");
    reveal_strlit("vm.heapSize=");
    reveal_strlit("hw.lcd.width=");
    reveal_strlit("hw.lcd.height=");
    reveal_strlit("hw.lcd.density=");
    reveal_strlit("skin.name=");
}

/// Key `b`'s line, with or without a trailing carriage return, carries key `b` and no
/// other, and names no image.
proof fn lemma_key_line_branch(b: int, v: Seq<char>, x: Seq<char>)
    requires
        0 <= b < 8,
        x == key_line(edit_key(b), v) || x == strip_cr(key_line(edit_key(b), v)),
    ensures
        edit_branch(x) == b,
        forall|k: int| 0 <= k < 3 ==> !#[trigger] marks_k(x, k),
        trim(x) == trim(key_line(edit_key(b), v)),
{
    let kb = edit_key(b);
    let kl = key_line(kb, v);
    lemma_edit_key_facts(b);
    crate::text::lemma_trim_strip_cr(kl);
    assert(trim(x) == trim(kl));
    assert(kl.subrange(0, kb.len() as int) =~= kb);
    crate::text::lemma_trim_keeps_key(kl, kb);
    let t = trim(kl);
    assert(t.subrange(0, kb.len() as int) == kb);
    assert forall|p: int| 0 <= p < kb.len() implies t[p] == kb[p] by {
        assert(t.subrange(0, kb.len() as int)[p] == t[p]);
    }
    assert forall|c: int| 0 <= c < 8 && c != b implies !starts_with(t, #[trigger] edit_key(c)) by {
        lemma_keys_distinct(b, c);
        lemma_edit_key_facts(c);
        if starts_with(t, edit_key(c)) {
            assert(t.subrange(0, edit_key(c).len() as int)[0] == t[0]);
            assert(t.subrange(0, edit_key(c).len() as int)[3] == t[3]);
            assert(t.subrange(0, edit_key(c).len() as int)[7] == t[7]);
        }
    }
    assert(has_key(x, kb));
    assert(!has_key(x, edit_key(0)) || b == 0);
    reveal_strlit("tag.id=");
    reveal_strlit("image.sysdir.1=");
    reveal_strlit("hw.cpu.ncore=");
    reveal_strlit("hw.ramSize=");
    reveal_strlit("hw.gpu.mode=");
    reveal_strlit("vm.heapSize=");
    reveal_strlit("hw.lcd.width=");
    reveal_strlit("hw.lcd.height=");
    reveal_strlit("hw.lcd.density=");
    reveal_strlit("skin.name=");
    if starts_with(t, "tag.id="@) {
        assert(t.subrange(0, 7)[0] == t[0]);
    }
    if starts_with(t, "image.sysdir.1="@) {
        assert(t.subrange(0, 15)[0] == t[0]);
    }
}

/// A line that names an image carries none of the edited keys.
proof fn lemma_marked_line_untouched(l: Seq<char>, k: int)
    requires
        0 <= k < 3,
        marks_k(l, k),
    ensures
        edit_branch(l) == 8,
{
    reveal_strlit("tag.id=");
    reveal_strlit("image.sysdir.1=");
    let t = trim(l);
    if crate::config::is_tag_line(l) {
        assert(t.subrange(0, 7)[0] == t[0]);
    } else {
        assert(t.subrange(0, 15)[0] == t[0]);
    }
    assert forall|c: int| 0 <= c < 8 implies !has_key(l, #[trigger] edit_key(c)) by {
        lemma_edit_key_facts(c);
        reveal_strlit("hw.cpu.ncore=");
        reveal_strlit("hw.ramSize=");
        reveal_strlit("hw.gpu.mode=");
        reveal_strlit("vm.heapSize=");
        reveal_strlit("hw.lcd.width=");
        reveal_strlit("hw.lcd.height=");
        reveal_strlit("hw.lcd.density=");
        reveal_strlit("skin.name=");
        if starts_with(t, edit_key(c)) {
            assert(t.subrange(0, edit_key(c).len() as int)[0] == t[0]);
        }
    }
    assert(!has_key(l, edit_key(0)));
    assert(!has_key(l, edit_key(1)));
    assert(!has_key(l, edit_key(2)));
    assert(!has_key(l, edit_key(3)));
    assert(!has_key(l, edit_key(4)));
    assert(!has_key(l, edit_key(5)));
    assert(!has_key(l, edit_key(6)));
    assert(!has_key(l, edit_key(7)));
}

/// Nothing is appended when every key the edit sets is already there.
proof fn lemma_appended_none(ls: Seq<Seq<char>>, vals: Seq<Seq<char>>, sr: bool, sd: bool, k: int)
    requires
        0 <= k <= 8,
        forall|b: int| 0 <= b < 8 && edit_applies(b, sr, sd) ==> #[trigger] edit_found(ls, b, sr, sd),
    ensures
        appended_upto(ls, vals, sr, sd, k) == Seq::<Seq<char>>::empty(),
    decreases k,
{
    if k > 0 {
        lemma_appended_none(ls, vals, sr, sd, k - 1);
        let b = if k - 1 == 6 {
            7
        } else if k - 1 == 7 {
            6
        } else {
            k - 1
        };
        if edit_applies(b, sr, sd) {
            assert(edit_found(ls, b, sr, sd));
        }
        assert(edit_appended(ls, vals, b, sr, sd) =~= Seq::<Seq<char>>::empty());
        assert(appended_upto(ls, vals, sr, sd, k) =~= Seq::<Seq<char>>::empty());
    }
}

/// What the lines an edit writes are (see `lemma_written_lines`).
spec fn written_facts(ls: Seq<Seq<char>>, vals: Seq<Seq<char>>, sr: bool, sd: bool) -> bool {
    let e = edited_lines(ls, vals, sr, sd);
    let app = appended_upto(ls, vals, sr, sd, 8);
    &&& e.len() >= 1
    &&& e.len() == ls.len() + app.len()
    &&& crate::config::edit_adds(ls, sr, sd) == (app.len() > 0)
    &&& forall|i: int| 0 <= i < ls.len() ==> #[trigger] e[i] == edited_line(ls[i], vals, sr, sd)
    &&& forall|i: int|
        0 <= i < e.len() ==> no_newline(#[trigger] e[i]) && ((i < ls.len() && e[i] == ls[i]
            && edit_keeps(ls[i], sr, sd)) || (set_key_line(e[i], vals, sr, sd) && !(i
            < ls.len() && edit_keeps(ls[i], sr, sd))))
    &&& forall|b: int|
        0 <= b < 8 && edit_applies(b, sr, sd) ==> exists|j: int|
            0 <= j < e.len() && #[trigger] e[j] == key_line(edit_key(b), vals[b])
    &&& forall|k: int, i: int|
        0 <= k < 3 && 0 <= i < e.len() && #[trigger] marks_k(e[i], k) ==> i < ls.len()
            && e[i] == ls[i]
    &&& forall|k: int, j: int|
        0 <= k < 3 && 0 <= j < ls.len() && #[trigger] marks_k(ls[j], k) ==> e[j] == ls[j]
}

/// The lines an edit writes: at least one; the config's lines, each kept or rewritten,
/// then the lines of the keys set that no line carried; each without a line break, each
/// a kept line of the config or the line of a key set; every key set has its line; and
/// lines that name an image are kept lines.
#[verifier::spinoff_prover]
#[verifier::rlimit(60)]
proof fn lemma_written_lines(
    content: Seq<char>,
    cores: Seq<char>,
    ram: Seq<char>,
    gpu: Seq<char>,
    res: Option<Seq<char>>,
    dpi: Option<Seq<char>>,
)
    requires
        no_newline(gpu),
        res matches Some(r) ==> (device_kind(content).wear || no_newline(r)),
        dpi matches Some(d) ==> (device_kind(content).wear || no_newline(d)),
    ensures
        written_facts(
            lines(content),
            edit_values(device_kind(content), cores, ram, gpu, res, dpi),
            !device_kind(content).wear && res is Some,
            !device_kind(content).wear && dpi is Some,
        ),
{
    let kind = device_kind(content);
    let ls = lines(content);
    let vals = edit_values(kind, cores, ram, gpu, res, dpi);
    let sr = !kind.wear && res is Some;
    let sd = !kind.wear && dpi is Some;
    let e = edited_lines(ls, vals, sr, sd);
    let mapped = ls.map_values(|l: Seq<char>| edited_line(l, vals, sr, sd));
    let app = appended_upto(ls, vals, sr, sd, 8);
    assert(e == mapped + app);
    lemma_appended(ls, vals, sr, sd, 8);
    crate::text::lemma_lines_no_newline(content);
    let adds = crate::config::edit_adds(ls, sr, sd);
    // Something is appended exactly when some key set is missing.
    assert(adds == (app.len() > 0)) by {
        if adds {
            let b = choose|b: int|
                #![trigger edit_found(ls, b, sr, sd)]
                0 <= b < 8 && edit_applies(b, sr, sd) && !edit_found(ls, b, sr, sd);
            lemma_appended_has(ls, vals, sr, sd, 8, b);
        } else {
            assert forall|b: int| 0 <= b < 8 && edit_applies(b, sr, sd) implies #[trigger] edit_found(
                ls,
                b,
                sr,
                sd,
            ) by {
                if !edit_found(ls, b, sr, sd) {
                    assert(adds);
                }
            }
            lemma_appended_none(ls, vals, sr, sd, 8);
        }
    }
    assert forall|i: int| 0 <= i < ls.len() implies #[trigger] e[i] == edited_line(ls[i], vals, sr, sd) by {
        assert(e[i] == mapped[i]);
    }
    // Each edited line is a kept line of the config or the line of a key set.
    assert forall|i: int| 0 <= i < e.len() implies no_newline(#[trigger] e[i]) && ((i < ls.len()
        && e[i] == ls[i] && edit_keeps(ls[i], sr, sd)) || (set_key_line(e[i], vals, sr, sd) && !(i
        < ls.len() && edit_keeps(ls[i], sr, sd)))) by {
        if i < mapped.len() {
            let l = ls[i];
            assert(e[i] == edited_line(l, vals, sr, sd));
            if edit_branch(l) < 8 && edit_applies(edit_branch(l), sr, sd) {
                let b = edit_branch(l);
                assert(e[i] == key_line(edit_key(b), vals[b]));
                assert(set_key_line(e[i], vals, sr, sd));
            } else {
                assert(e[i] == l);
                assert(no_newline(l));
            }
        } else {
            assert(e[i] == app[i - mapped.len()]);
            assert(set_key_line(app[i - mapped.len()], vals, sr, sd));
        }
        if set_key_line(e[i], vals, sr, sd) {
            let b = choose|b: int|
                0 <= b < 8 && edit_applies(b, sr, sd) && e[i] == #[trigger] key_line(
                    edit_key(b),
                    vals[b],
                );
            lemma_edit_key_facts(b);
            lemma_values_no_newline(kind, cores, ram, gpu, res, dpi, b);
            assert forall|m: int| 0 <= m < e[i].len() implies e[i][m] != '\n' by {
                if m < edit_key(b).len() {
                    assert(e[i][m] == edit_key(b)[m]);
                } else {
                    assert(e[i][m] == vals[b][m - edit_key(b).len()]);
                }
            }
            if i < ls.len() && edit_keeps(ls[i], sr, sd) {
                assert(e[i] == ls[i]);
                lemma_key_line_branch(b, vals[b], ls[i]);
            }
        }
    }
    // Every key set has its line.
    assert forall|b: int| 0 <= b < 8 && edit_applies(b, sr, sd) implies exists|j: int|
        0 <= j < e.len() && #[trigger] e[j] == key_line(edit_key(b), vals[b]) by {
        if edit_found(ls, b, sr, sd) {
            let j = choose|j: int| 0 <= j < ls.len() && #[trigger] edit_branch(ls[j]) == b;
            assert(e[j] == edited_line(ls[j], vals, sr, sd));
        } else {
            lemma_appended_has(ls, vals, sr, sd, 8, b);
            let m = choose|m: int| 0 <= m < app.len() && app[m] == key_line(edit_key(b), vals[b]);
            assert(e[mapped.len() + m] == app[m]);
        }
    }
    assert(e.len() >= 1) by {
        if ls.len() == 0 {
            assert(!edit_found(ls, 0, sr, sd));
            lemma_appended_has(ls, vals, sr, sd, 8, 0);
        }
    }
    // Lines that name an image are kept.
    assert forall|k: int, i: int| 0 <= k < 3 && 0 <= i < e.len() && #[trigger] marks_k(e[i], k)
        implies i < ls.len() && e[i] == ls[i] by {
        if set_key_line(e[i], vals, sr, sd) {
            let b = choose|b: int|
                0 <= b < 8 && edit_applies(b, sr, sd) && e[i] == #[trigger] key_line(
                    edit_key(b),
                    vals[b],
                );
            lemma_key_line_branch(b, vals[b], e[i]);
        }
    }
    assert forall|k: int, j: int| 0 <= k < 3 && 0 <= j < ls.len() && #[trigger] marks_k(ls[j], k)
        implies e[j] == ls[j] by {
        lemma_marked_line_untouched(ls[j], k);
        assert(e[j] == edited_line(ls[j], vals, sr, sd));
    }
}

/// Read back, a written key line carries its key: editing it again writes the same line.
proof fn lemma_key_line_again(e: Seq<char>, x: Seq<char>, vals: Seq<Seq<char>>, sr: bool, sd: bool)
    requires
        set_key_line(e, vals, sr, sd),
        x == e || x == strip_cr(e),
    ensures
        edited_line(x, vals, sr, sd) == e,
        !edit_keeps(x, sr, sd),
{
    let b = choose|b: int|
        0 <= b < 8 && edit_applies(b, sr, sd) && e == #[trigger] key_line(edit_key(b), vals[b]);
    lemma_key_line_branch(b, vals[b], x);
}

/// A kept line stays kept without its carriage return.
proof fn lemma_kept_again(l: Seq<char>, vals: Seq<Seq<char>>, sr: bool, sd: bool)
    requires
        edit_keeps(l, sr, sd),
    ensures
        edit_keeps(strip_cr(l), sr, sd),
        edited_line(strip_cr(l), vals, sr, sd) == strip_cr(l),
{
    crate::text::lemma_trim_strip_cr(l);
    assert(forall|k: Seq<char>| has_key(strip_cr(l), k) == has_key(l, k));
    assert(edit_branch(strip_cr(l)) == edit_branch(l));
}

/// An update is settled: editing the edited config again with the same settings writes
/// the same text, where the edit reads back as it was written and writes no line break
/// inside a value.
#[verifier::rlimit(60)]
pub(crate) proof fn lemma_edit_settled(
    content: Seq<char>,
    cores: Seq<char>,
    ram: Seq<char>,
    gpu: Seq<char>,
    res: Option<Seq<char>>,
    dpi: Option<Seq<char>>,
)
    requires
        no_newline(gpu),
        res matches Some(r) ==> (device_kind(content).wear || no_newline(r)),
        dpi matches Some(d) ==> (device_kind(content).wear || no_newline(d)),
        crate::config::edit_reads_back(content, res, dpi),
    ensures
        edited_config(edited_config(content, cores, ram, gpu, res, dpi), cores, ram, gpu, res, dpi)
            == edited_config(content, cores, ram, gpu, res, dpi),
{
    let kind = device_kind(content);
    let ls = lines(content);
    let vals = edit_values(kind, cores, ram, gpu, res, dpi);
    let sr = !kind.wear && res is Some;
    let sd = !kind.wear && dpi is Some;
    let e = edited_lines(ls, vals, sr, sd);
    let app = appended_upto(ls, vals, sr, sd, 8);
    let written = crate::text::join(e, "\n"@);
    assert(edited_config(content, cores, ram, gpu, res, dpi) == written);
    lemma_written_lines(content, cores, ram, gpu, res, dpi);
    let adds = crate::config::edit_adds(ls, sr, sd);
    // The last written line is not empty.
    assert(e.last().len() > 0) by {
        let i = e.len() - 1;
        if set_key_line(e[i], vals, sr, sd) {
            let b = choose|b: int|
                0 <= b < 8 && edit_applies(b, sr, sd) && e[i] == #[trigger] key_line(
                    edit_key(b),
                    vals[b],
                );
            lemma_edit_key_facts(b);
        } else {
            assert(i < ls.len());
            assert(app.len() == 0);
            assert(ls.len() > 0);
            assert(ls.last() == ls[i]);
        }
    }
    // Read back, the lines are the written lines (carriage returns dropped on key lines).
    crate::text::lemma_lines_of_join(e);
    let back = lines(written);
    assert(back.len() == e.len());
    assert forall|i: int| 0 <= i < back.len() implies (#[trigger] back[i] == e[i] || back[i]
        == strip_cr(e[i])) && (!set_key_line(e[i], vals, sr, sd) ==> back[i] == e[i]) by {
        if i < e.len() - 1 {
            assert(back[i] == strip_cr(e[i]));
            if !set_key_line(e[i], vals, sr, sd) {
                assert(e[i] == ls[i]);
                if strip_cr(ls[i]) != ls[i] {
                    assert(i == ls.len() - 1 && !adds);
                }
            }
        }
    }
    // The same image kind.
    assert forall|i: int| 0 <= i < back.len() implies trim(#[trigger] back[i]) == trim(e[i]) by {
        crate::text::lemma_trim_strip_cr(e[i]);
    }
    crate::config::lemma_kind_read_back(ls, e, back, 0);
    crate::config::lemma_kind_read_back(ls, e, back, 1);
    crate::config::lemma_kind_read_back(ls, e, back, 2);
    lemma_kind_same(ls, back);
    assert(device_kind(written) == kind);
    // The second edit rewrites every line as it is and appends nothing.
    let mapped2 = back.map_values(|l: Seq<char>| edited_line(l, vals, sr, sd));
    assert forall|i: int| 0 <= i < back.len() implies #[trigger] mapped2[i] == e[i] by {
        if set_key_line(e[i], vals, sr, sd) {
            lemma_key_line_again(e[i], back[i], vals, sr, sd);
        } else {
            assert(back[i] == e[i]);
            assert(e[i] == ls[i]);
        }
    }
    assert forall|b: int| 0 <= b < 8 && edit_applies(b, sr, sd) implies #[trigger] edit_found(
        back,
        b,
        sr,
        sd,
    ) by {
        let j = choose|j: int| 0 <= j < e.len() && #[trigger] e[j] == key_line(edit_key(b), vals[b]);
        if j < e.len() - 1 {
            lemma_key_line_branch(b, vals[b], strip_cr(e[j]));
        } else {
            lemma_key_line_branch(b, vals[b], e[j]);
        }
        assert(edit_branch(back[j]) == b);
    }
    lemma_appended_none(back, vals, sr, sd, 8);
    assert(edited_lines(back, vals, sr, sd) =~= e);
}

/// Editing again reads back the same lines: a second edit with the same settings leaves
/// the lines read back from the config as the first edit left them, where those lines read
/// back settled and no value written holds a line break.
#[verifier::rlimit(80)]
pub(crate) proof fn lemma_edit_lines_settled(
    content: Seq<char>,
    cores: Seq<char>,
    ram: Seq<char>,
    gpu: Seq<char>,
    res: Option<Seq<char>>,
    dpi: Option<Seq<char>>,
)
    requires
        no_newline(gpu),
        res matches Some(r) ==> (device_kind(content).wear || no_newline(r)),
        dpi matches Some(d) ==> (device_kind(content).wear || no_newline(d)),
        crate::config::edit_lines_settle(content, cores, ram, gpu, res, dpi),
    ensures
        lines(
            edited_config(
                edited_config(content, cores, ram, gpu, res, dpi),
                cores,
                ram,
                gpu,
                res,
                dpi,
            ),
        ) == lines(edited_config(content, cores, ram, gpu, res, dpi)),
{
    let kind = device_kind(content);
    let ls = lines(content);
    let vals = edit_values(kind, cores, ram, gpu, res, dpi);
    let sr = !kind.wear && res is Some;
    let sd = !kind.wear && dpi is Some;
    let e = edited_lines(ls, vals, sr, sd);
    let n = e.len() as int;
    let written = crate::text::join(e, "\n"@);
    assert(edited_config(content, cores, ram, gpu, res, dpi) == written);
    lemma_written_lines(content, cores, ram, gpu, res, dpi);
    assert(crate::config::edit_written_lines(content, cores, ram, gpu, res, dpi) == e);
    let last_read = if e.last().len() == 0 {
        n - 2
    } else {
        n - 1
    };
    // Read back: every line without its carriage return but the last, which is dropped
    // when empty.
    crate::text::lemma_lines_of_join(e);
    let back = lines(written);
    assert(back.len() == last_read + 1);
    assert forall|i: int| 0 <= i < back.len() implies #[trigger] back[i] == (if i < n - 1 {
        strip_cr(e[i])
    } else {
        e[i]
    }) by {}
    // A key line is not empty, so an empty last line is a kept one.
    assert forall|i: int| 0 <= i < n && #[trigger] set_key_line(e[i], vals, sr, sd) implies e[i].len()
        > 0 by {
        let b = choose|b: int|
            0 <= b < 8 && edit_applies(b, sr, sd) && e[i] == #[trigger] key_line(edit_key(b), vals[b]);
        lemma_edit_key_facts(b);
    }
    assert(e.last().len() == 0 ==> n >= 2);
    // The same image kind.
    assert forall|i: int| 0 <= i < back.len() implies trim(#[trigger] back[i]) == trim(e[i]) by {
        crate::text::lemma_trim_strip_cr(e[i]);
    }
    crate::config::lemma_kind_read_back(ls, e, back, 0);
    crate::config::lemma_kind_read_back(ls, e, back, 1);
    crate::config::lemma_kind_read_back(ls, e, back, 2);
    lemma_kind_same(ls, back);
    assert(device_kind(written) == kind);
    // The second edit writes each key line again and keeps the rest as read back.
    let e2 = back.map_values(|l: Seq<char>| edited_line(l, vals, sr, sd));
    assert forall|i: int| 0 <= i < back.len() implies #[trigger] e2[i] == (if set_key_line(
        e[i],
        vals,
        sr,
        sd,
    ) {
        e[i]
    } else {
        back[i]
    }) by {
        if set_key_line(e[i], vals, sr, sd) {
            lemma_key_line_again(e[i], back[i], vals, sr, sd);
        } else {
            assert(i < ls.len() && e[i] == ls[i] && edit_keeps(ls[i], sr, sd));
            if i < n - 1 {
                lemma_kept_again(ls[i], vals, sr, sd);
            }
        }
    }
    assert forall|b: int| 0 <= b < 8 && edit_applies(b, sr, sd) implies #[trigger] edit_found(
        back,
        b,
        sr,
        sd,
    ) by {
        let j = choose|j: int| 0 <= j < e.len() && #[trigger] e[j] == key_line(edit_key(b), vals[b]);
        assert(set_key_line(e[j], vals, sr, sd));
        assert(e[j].len() > 0);
        assert(j < back.len());
        if j < n - 1 {
            lemma_key_line_branch(b, vals[b], strip_cr(e[j]));
        } else {
            lemma_key_line_branch(b, vals[b], e[j]);
        }
        assert(edit_branch(back[j]) == b);
    }
    lemma_appended_none(back, vals, sr, sd, 8);
    assert(edited_lines(back, vals, sr, sd) =~= e2);
    assert(edited_config(written, cores, ram, gpu, res, dpi) == crate::text::join(e2, "\n"@));
    // The lines of the second text.
    assert forall|i: int| 0 <= i < e2.len() implies no_newline(#[trigger] e2[i]) by {
        if !set_key_line(e[i], vals, sr, sd) && i < n - 1 {
            assert(e2[i] == strip_cr(e[i]));
            assert(no_newline(e[i]));
            assert forall|m: int| 0 <= m < e2[i].len() implies e2[i][m] != '\n' by {
                assert(e2[i][m] == e[i][m]);
            }
        }
    }
    let k2 = e2.len() - 1;
    assert(e2[k2].len() > 0) by {
        if !set_key_line(e[k2], vals, sr, sd) && k2 < n - 1 {
            assert(e.last().len() == 0);
            assert(k2 == n - 2);
        }
    }
    crate::text::lemma_lines_of_join(e2);
    let back2 = lines(crate::text::join(e2, "\n"@));
    assert(back2.len() == back.len());
    assert forall|i: int| 0 <= i < back.len() implies #[trigger] back2[i] == back[i] by {
        if i < k2 {
            assert(back2[i] == strip_cr(e2[i]));
            assert(i < last_read);
            if set_key_line(e[i], vals, sr, sd) {
                assert(back[i] == strip_cr(e[i]));
            } else {
                assert(i < ls.len() && e[i] == ls[i] && edit_keeps(ls[i], sr, sd));
            }
        } else {
            assert(back2[i] == e2[i]);
            if set_key_line(e[i], vals, sr, sd) && i < n - 1 {
                assert(e.last().len() == 0);
                lemma_key_line_again(e[i], e[i], vals, sr, sd);
                assert(!(n - 2 < ls.len() && edit_keeps(ls[n - 2], sr, sd)));
            }
        }
    }
    assert(back2 =~= back);
}

/// Lines that name the same images give the same kind.
proof fn lemma_kind_same(ls: Seq<Seq<char>>, back: Seq<Seq<char>>)
    requires
        (exists|i: int| 0 <= i < back.len() && #[trigger] marks_k(back[i], 0)) == (exists|j: int|
            0 <= j < ls.len() && #[trigger] marks_k(ls[j], 0)),
        (exists|i: int| 0 <= i < back.len() && #[trigger] marks_k(back[i], 1)) == (exists|j: int|
            0 <= j < ls.len() && #[trigger] marks_k(ls[j], 1)),
        (exists|i: int| 0 <= i < back.len() && #[trigger] marks_k(back[i], 2)) == (exists|j: int|
            0 <= j < ls.len() && #[trigger] marks_k(ls[j], 2)),
    ensures
        (exists|i: int| 0 <= i < back.len() && #[trigger] crate::config::marks_wear(back[i])) == (
        exists|j: int| 0 <= j < ls.len() && #[trigger] crate::config::marks_wear(ls[j])),
        (exists|i: int| 0 <= i < back.len() && #[trigger] crate::config::marks_tv(back[i])) == (
        exists|j: int| 0 <= j < ls.len() && #[trigger] crate::config::marks_tv(ls[j])),
        (exists|i: int| 0 <= i < back.len() && #[trigger] crate::config::marks_automotive(back[i]))
            == (exists|j: int| 0 <= j < ls.len() && #[trigger] crate::config::marks_automotive(
            ls[j],
        )),
{
    if exists|i: int| 0 <= i < back.len() && #[trigger] crate::config::marks_wear(back[i]) {
        let i = choose|i: int| 0 <= i < back.len() && #[trigger] crate::config::marks_wear(back[i]);
        assert(marks_k(back[i], 0));
    }
    if exists|i: int| 0 <= i < ls.len() && #[trigger] crate::config::marks_wear(ls[i]) {
        let i = choose|i: int| 0 <= i < ls.len() && #[trigger] crate::config::marks_wear(ls[i]);
        assert(marks_k(ls[i], 0));
    }
    if exists|i: int| 0 <= i < back.len() && #[trigger] marks_k(back[i], 0) {
        let i = choose|i: int| 0 <= i < back.len() && #[trigger] marks_k(back[i], 0);
        assert(crate::config::marks_wear(back[i]));
    }
    if exists|i: int| 0 <= i < ls.len() && #[trigger] marks_k(ls[i], 0) {
        let i = choose|i: int| 0 <= i < ls.len() && #[trigger] marks_k(ls[i], 0);
        assert(crate::config::marks_wear(ls[i]));
    }
    if exists|i: int| 0 <= i < back.len() && #[trigger] crate::config::marks_tv(back[i]) {
        let i = choose|i: int| 0 <= i < back.len() && #[trigger] crate::config::marks_tv(back[i]);
        assert(marks_k(back[i], 1));
    }
    if exists|i: int| 0 <= i < ls.len() && #[trigger] crate::config::marks_tv(ls[i]) {
        let i = choose|i: int| 0 <= i < ls.len() && #[trigger] crate::config::marks_tv(ls[i]);
        assert(marks_k(ls[i], 1));
    }
    if exists|i: int| 0 <= i < back.len() && #[trigger] marks_k(back[i], 1) {
        let i = choose|i: int| 0 <= i < back.len() && #[trigger] marks_k(back[i], 1);
        assert(crate::config::marks_tv(back[i]));
    }
    if exists|i: int| 0 <= i < ls.len() && #[trigger] marks_k(ls[i], 1) {
        let i = choose|i: int| 0 <= i < ls.len() && #[trigger] marks_k(ls[i], 1);
        assert(crate::config::marks_tv(ls[i]));
    }
    if exists|i: int| 0 <= i < back.len() && #[trigger] crate::config::marks_automotive(back[i]) {
        let i = choose|i: int|
            0 <= i < back.len() && #[trigger] crate::config::marks_automotive(back[i]);
        assert(marks_k(back[i], 2));
    }
    if exists|i: int| 0 <= i < ls.len() && #[trigger] crate::config::marks_automotive(ls[i]) {
        let i = choose|i: int| 0 <= i < ls.len() && #[trigger] crate::config::marks_automotive(ls[i]);
        assert(marks_k(ls[i], 2));
    }
    if exists|i: int| 0 <= i < back.len() && #[trigger] marks_k(back[i], 2) {
        let i = choose|i: int| 0 <= i < back.len() && #[trigger] marks_k(back[i], 2);
        assert(crate::config::marks_automotive(back[i]));
    }
    if exists|i: int| 0 <= i < ls.len() && #[trigger] marks_k(ls[i], 2) {
        let i = choose|i: int| 0 <= i < ls.len() && #[trigger] marks_k(ls[i], 2);
        assert(crate::config::marks_automotive(ls[i]));
    }
}

/// The appended lines hold key `t`'s line when the edit sets key `t` and no line had it.
proof fn lemma_appended_has(ls: Seq<Seq<char>>, vals: Seq<Seq<char>>, sr: bool, sd: bool, k: int, t: int)
    requires
        0 <= t < 8,
        (if t == 6 {
            7
        } else if t == 7 {
            6
        } else {
            t
        }) < k <= 8,
        edit_applies(t, sr, sd),
        !edit_found(ls, t, sr, sd),
    ensures
        exists|m: int|
            0 <= m < appended_upto(ls, vals, sr, sd, k).len() && appended_upto(ls, vals, sr, sd, k)[m]
                == key_line(edit_key(t), vals[t]),
    decreases k,
{
    let p = appended_upto(ls, vals, sr, sd, k - 1);
    let b = if k - 1 == 6 {
        7
    } else if k - 1 == 7 {
        6
    } else {
        k - 1
    };
    let r = appended_upto(ls, vals, sr, sd, k);
    assert(r == p + edit_appended(ls, vals, b, sr, sd));
    if b == t {
        assert(r[p.len() as int] == key_line(edit_key(t), vals[t]));
    } else {
        lemma_appended_has(ls, vals, sr, sd, k - 1, t);
        let m = choose|m: int| 0 <= m < p.len() && p[m] == key_line(edit_key(t), vals[t]);
        assert(r[m] == p[m]);
    }
}

} // verus!
