//! The system images offered by `sdkmanager --list`, as shown in the SDK manager.
use vstd::prelude::*;
use crate::case::{lowercase, to_lowercase, to_uppercase, uppercase};
use crate::number::{parse_i32, parse_i32_exec, signed_decimal, signed_decimal_exec};
use crate::text::{
    chars_of, contains, contains_str, lines, push_chars, push_str, replace, replace_str,
    split_char, split_char_exec, split_lines, starts_with, starts_with_str, string_of, trim,
    trim_exec, up_to_char, up_to_char_exec, views,
};
use crate::types::SdkPackageInfo;

verus! {

// ───────────────────────────── candidates ─────────────────────────────

/// A system image line of the listing, as read.
pub struct CandidateModel {
    pub id: Seq<char>,
    pub api_level: int,
    pub version: Seq<char>,
    pub desc: Seq<char>,
    pub is_16k: bool,
    pub installed: bool,
    pub variant: Seq<char>,
}

/// A system image line of the listing, as read.
pub struct Candidate {
    pub id: String,
    pub api_level: i32,
    pub version: String,
    pub desc: String,
    pub is_16k: bool,
    pub installed: bool,
    pub variant: String,
}

impl View for Candidate {
    type V = CandidateModel;

    open spec fn view(&self) -> CandidateModel {
        CandidateModel {
            id: self.id@,
            api_level: self.api_level as int,
            version: self.version@,
            desc: self.desc@,
            is_16k: self.is_16k,
            installed: self.installed,
            variant: self.variant@,
        }
    }
}

/// The API level written in the second `;` field of an image id (`android-34.1` → 34).
pub open spec fn api_level_text(field: Seq<char>) -> Seq<char> {
    up_to_char(replace(field, "android-"@, ""@), '.')
}

/// A trimmed listing line read as a system image: an x86_64 image of API 30 or later,
/// not an SDK extension, not a canary or codename build.
pub open spec fn parse_candidate(t: Seq<char>, installed: bool) -> Option<CandidateModel> {
    let parts = split_char(t, '|');
    let id = trim(parts[0]);
    let fields = split_char(id, ';');
    if !starts_with(t, "system-images;"@) || parts.len() < 2 {
        None
    } else if !contains(id, "x86_64"@) {
        None
    } else if contains(id, "-ext"@) || contains(id, "_ext"@) {
        None
    } else if names_codename(lowercase(id)) {
        None
    } else if fields.len() < 4 {
        None
    } else {
        match parse_i32(api_level_text(fields[1])) {
            None => None,
            Some(api) => if api < 30 {
                None
            } else {
                Some(
                    CandidateModel {
                        id,
                        api_level: api as int,
                        version: trim(parts[1]),
                        desc: if parts.len() >= 3 {
                            trim(parts[2])
                        } else {
                            seq![]
                        },
                        is_16k: contains(id, "ps16k"@) || contains(id, "16k"@) || contains(
                            id,
                            "16kb"@,
                        ),
                        installed,
                        variant: fields[2],
                    },
                )
            },
        }
    }
}

/// The candidates of a listing and whether the section being read is the installed one
/// (it is until `Available Packages:`).
pub open spec fn scan_listing(ls: Seq<Seq<char>>) -> (Seq<CandidateModel>, bool)
    decreases ls.len(),
{
    if ls.len() == 0 {
        (seq![], true)
    } else {
        let (cs, installed) = scan_listing(ls.drop_last());
        let t = trim(ls.last());
        if starts_with(t, "Installed packages:"@) {
            (cs, true)
        } else if starts_with(t, "Available Packages:"@) {
            (cs, false)
        } else {
            match parse_candidate(t, installed) {
                Some(c) => (cs.push(c), installed),
                None => (cs, installed),
            }
        }
    }
}

pub open spec fn listing_candidates(stdout: Seq<char>) -> Seq<CandidateModel> {
    scan_listing(lines(stdout)).0
}

pub open spec fn candidate_views(v: Seq<Candidate>) -> Seq<CandidateModel> {
    v.map_values(|c: Candidate| c@)
}

fn parse_candidate_exec(t: &Vec<char>, installed: bool) -> (r: Option<Candidate>)
    ensures
        r matches Some(c) ==> parse_candidate(t@, installed) == Some(c@),
        r is None ==> parse_candidate(t@, installed) is None,
{
    let parts = split_char_exec(t, '|');
    let ghost pv = views(parts@);
    assert(pv.len() >= 1);
    assert(pv[0] == parts@[0]@);
    let id = trim_exec(&parts[0]);
    let fields = split_char_exec(&id, ';');
    if !starts_with_str(t, "system-images;") || parts.len() < 2 {
        return None;
    }
    if !contains_str(&id, "x86_64") {
        return None;
    }
    if contains_str(&id, "-ext") || contains_str(&id, "_ext") {
        return None;
    }
    let id_s = string_of(&id);
    if is_codename_id(to_lowercase(id_s.as_str()).as_str()) {
        return None;
    }
    if fields.len() < 4 {
        return None;
    }
    let ghost fv = views(fields@);
    assert(fv[1] == fields@[1]@ && fv[2] == fields@[2]@);
    proof {
        reveal_strlit("android-");
    }
    let stripped = replace_str(&fields[1], "android-", "");
    let api_text = up_to_char_exec(&stripped, '.');
    match parse_i32_exec(&api_text) {
        None => None,
        Some(api) => {
            if api < 30 {
                return None;
            }
            assert(pv[1] == parts@[1]@);
            let version = trim_exec(&parts[1]);
            let desc = if parts.len() >= 3 {
                assert(pv[2] == parts@[2]@);
                trim_exec(&parts[2])
            } else {
                Vec::new()
            };
            let is_16k = contains_str(&id, "ps16k") || contains_str(&id, "16k") || contains_str(
                &id,
                "16kb",
            );
            Some(
                Candidate {
                    id: id_s,
                    api_level: api,
                    version: string_of(&version),
                    desc: string_of(&desc),
                    is_16k,
                    installed,
                    variant: string_of(&fields[2]),
                },
            )
        },
    }
}

/// The system image candidates of an `sdkmanager --list` output, in order.
pub fn parse_sdk_candidates(stdout: &str) -> (r: Vec<Candidate>)
    ensures
        candidate_views(r@) == listing_candidates(stdout@),
{
    let ls = split_lines(&chars_of(stdout));
    let ghost sl = views(ls@);
    let mut out: Vec<Candidate> = Vec::new();
    let mut installed = true;
    let mut i: usize = 0;
    while i < ls.len()
        invariant
            i <= ls.len(),
            sl == views(ls@),
            sl == lines(stdout@),
            (candidate_views(out@), installed) == scan_listing(sl.take(i as int)),
        decreases ls.len() - i,
    {
        assert(sl.take(i + 1).drop_last() =~= sl.take(i as int));
        assert(sl[i as int] == ls@[i as int]@);
        let t = trim_exec(&ls[i]);
        if starts_with_str(&t, "Installed packages:") {
            installed = true;
        } else if starts_with_str(&t, "Available Packages:") {
            installed = false;
        } else {
            match parse_candidate_exec(&t, installed) {
                Some(c) => {
                    let ghost prev = out@;
                    out.push(c);
                    assert(candidate_views(out@) =~= candidate_views(prev).push(
                        out@[prev.len() as int]@,
                    ));
                },
                None => {},
            }
        }
        i += 1;
    }
    assert(sl.take(sl.len() as int) =~= sl);
    out
}

// ───────────────────────────── packages ─────────────────────────────

/// A system image as offered in the SDK manager.
pub struct PackageModel {
    pub id: Seq<char>,
    pub name: Seq<char>,
    pub desc: Seq<char>,
    pub version: Seq<char>,
    pub installed: bool,
    pub category: Seq<char>,
}

pub open spec fn package_view(p: SdkPackageInfo) -> PackageModel {
    PackageModel {
        id: p.id@,
        name: p.name@,
        desc: p.desc@,
        version: p.version@,
        installed: p.installed,
        category: p.category@,
    }
}

pub open spec fn package_views(v: Seq<SdkPackageInfo>) -> Seq<PackageModel> {
    v.map_values(|p: SdkPackageInfo| package_view(p))
}

/// The highest API level among the candidates, 36 when there are none.
pub open spec fn max_api_level(cs: Seq<CandidateModel>) -> int
    decreases cs.len(),
{
    if cs.len() == 0 {
        36
    } else if cs.len() == 1 {
        cs[0].api_level
    } else {
        let m = max_api_level(cs.drop_last());
        if cs.last().api_level > m {
            cs.last().api_level
        } else {
            m
        }
    }
}

/// A lowercased image id of a canary or codename build.
pub open spec fn names_codename(lower_id: Seq<char>) -> bool {
    contains(lower_id, "canary"@) || contains(lower_id, "cinnamonbun"@)
}

pub fn is_codename_id(lower_id: &str) -> (r: bool)
    ensures
        r == names_codename(lower_id@),
{
    let l = chars_of(lower_id);
    contains_str(&l, "canary") || contains_str(&l, "cinnamonbun")
}

/// A lowercased image id of a preview or beta build.
pub open spec fn names_preview(lower_id: Seq<char>) -> bool {
    contains(lower_id, "preview"@) || contains(lower_id, "beta"@)
}

pub fn is_preview_id(lower_id: &str) -> (r: bool)
    ensures
        r == names_preview(lower_id@),
{
    let l = chars_of(lower_id);
    contains_str(&l, "preview") || contains_str(&l, "beta")
}

/// A beta or preview image: one at the highest API level found, a 16 KB page-size build,
/// or one whose id names a preview or beta.
pub open spec fn is_beta(c: CandidateModel, max_api: int) -> bool {
    c.api_level == max_api || c.is_16k || names_preview(lowercase(c.id))
}

/// The shelf a system image is shown on.
pub open spec fn package_category(c: CandidateModel, max_api: int) -> Seq<char> {
    if contains(c.id, "android-tv"@) || contains(c.id, "google-tv"@) {
        "Android TV"@
    } else if contains(c.id, "android-wear"@) || contains(c.id, "wear"@) {
        "Wear OS"@
    } else if contains(c.id, "android-automotive"@) {
        "Automotive"@
    } else if is_beta(c, max_api) {
        "Beta / Preview"@
    } else if contains(c.id, "playstore"@) {
        "Stable (Play Store)"@
    } else {
        "Stable (Google APIs)"@
    }
}

/// The Android version of an API level (33 and up: level − 20; 31 and 32: 12; 30: 11).
pub open spec fn android_version(api: int) -> Seq<char> {
    if api >= 33 {
        signed_decimal(api - 20)
    } else if api == 31 || api == 32 {
        "12"@
    } else if api == 30 {
        "11"@
    } else {
        signed_decimal(api)
    }
}

/// The display name `Android V[ (Beta/Preview)] (API N) · VARIANT[ [16 KB Page Size]]`,
/// from the API level, whether the image is a beta, the variant as shown, and whether it
/// uses 16 KB pages.
pub open spec fn display_name(api: int, beta: bool, shown_variant: Seq<char>, is_16k: bool) -> Seq<
    char,
> {
    "Android "@ + android_version(api) + (if beta {
        " (Beta/Preview)"@
    } else {
        ""@
    }) + " (API "@ + signed_decimal(api) + ") · "@ + shown_variant + (if is_16k {
        " [16 KB Page Size]"@
    } else {
        ""@
    })
}

/// A candidate's display name: its variant with `_` as spaces, upper-cased.
pub open spec fn package_name(c: CandidateModel, max_api: int) -> Seq<char> {
    display_name(
        c.api_level,
        is_beta(c, max_api),
        uppercase(replace(c.variant, "_"@, " "@)),
        c.is_16k,
    )
}

pub fn package_display_name(api: i32, beta: bool, shown_variant: &str, is_16k: bool) -> (r: String)
    ensures
        r@ == display_name(api as int, beta, shown_variant@, is_16k),
{
    let ver = if api >= 33 {
        signed_decimal_exec(api as i64 - 20)
    } else if api == 31 || api == 32 {
        chars_of("12")
    } else if api == 30 {
        chars_of("11")
    } else {
        signed_decimal_exec(api as i64)
    };
    let mut name = chars_of("Android ");
    push_chars(&mut name, &ver);
    push_str(
        &mut name,
        if beta {
            " (Beta/Preview)"
        } else {
            ""
        },
    );
    push_str(&mut name, " (API ");
    push_chars(&mut name, &signed_decimal_exec(api as i64));
    push_str(&mut name, ") · ");
    push_str(&mut name, shown_variant);
    push_str(
        &mut name,
        if is_16k {
            " [16 KB Page Size]"
        } else {
            ""
        },
    );
    string_of(&name)
}

/// The package shown for a candidate: none for a 16 KB page-size image below the
/// highest API level.
pub open spec fn package_of(c: CandidateModel, max_api: int) -> Option<PackageModel> {
    if c.is_16k && c.api_level != max_api {
        None
    } else {
        Some(
            PackageModel {
                id: c.id,
                name: package_name(c, max_api),
                desc: c.desc,
                version: c.version,
                installed: c.installed,
                category: package_category(c, max_api),
            },
        )
    }
}

pub open spec fn packages_of(cs: Seq<CandidateModel>, max_api: int) -> Seq<PackageModel>
    decreases cs.len(),
{
    if cs.len() == 0 {
        seq![]
    } else {
        let r = packages_of(cs.drop_last(), max_api);
        match package_of(cs.last(), max_api) {
            Some(p) => r.push(p),
            None => r,
        }
    }
}

fn max_api_exec(cs: &Vec<Candidate>) -> (r: i32)
    ensures
        r as int == max_api_level(candidate_views(cs@)),
{
    let ghost cv = candidate_views(cs@);
    if cs.len() == 0 {
        return 36;
    }
    let mut m = cs[0].api_level;
    let mut i: usize = 1;
    assert(cv.take(1).drop_last() =~= seq![]);
    while i < cs.len()
        invariant
            1 <= i <= cs.len(),
            cv == candidate_views(cs@),
            m as int == max_api_level(cv.take(i as int)),
        decreases cs.len() - i,
    {
        assert(cv.take(i + 1).drop_last() =~= cv.take(i as int));
        if cs[i].api_level > m {
            m = cs[i].api_level;
        }
        i += 1;
    }
    assert(cv.take(cv.len() as int) =~= cv);
    m
}

fn package_of_exec(c: &Candidate, max_api: i32) -> (r: Option<SdkPackageInfo>)
    ensures
        r matches Some(p) ==> package_of(c@, max_api as int) == Some(package_view(p)),
        r is None ==> package_of(c@, max_api as int) is None,
{
    if c.is_16k && c.api_level != max_api {
        return None;
    }
    let id = chars_of(c.id.as_str());
    let beta = c.api_level == max_api || c.is_16k || is_preview_id(
        to_lowercase(c.id.as_str()).as_str(),
    );
    let category = if contains_str(&id, "android-tv") || contains_str(&id, "google-tv") {
        "Android TV"
    } else if contains_str(&id, "android-wear") || contains_str(&id, "wear") {
        "Wear OS"
    } else if contains_str(&id, "android-automotive") {
        "Automotive"
    } else if beta {
        "Beta / Preview"
    } else if contains_str(&id, "playstore") {
        "Stable (Play Store)"
    } else {
        "Stable (Google APIs)"
    };
    proof {
        reveal_strlit("_");
    }
    let variant = string_of(&replace_str(&chars_of(c.variant.as_str()), "_", " "));
    let name = package_display_name(
        c.api_level,
        beta,
        to_uppercase(variant.as_str()).as_str(),
        c.is_16k,
    );
    Some(
        SdkPackageInfo {
            id: c.id.clone(),
            name,
            desc: c.desc.clone(),
            version: c.version.clone(),
            installed: c.installed,
            category: String::from_str(category),
        },
    )
}

/// The packages shown for a list of candidates, in order.
pub fn packages_from_candidates(cs: &Vec<Candidate>) -> (r: Vec<SdkPackageInfo>)
    ensures
        package_views(r@) == packages_of(
            candidate_views(cs@),
            max_api_level(candidate_views(cs@)),
        ),
{
    let ghost cv = candidate_views(cs@);
    let max_api = max_api_exec(cs);
    let mut out: Vec<SdkPackageInfo> = Vec::new();
    let mut i: usize = 0;
    while i < cs.len()
        invariant
            i <= cs.len(),
            cv == candidate_views(cs@),
            max_api as int == max_api_level(cv),
            package_views(out@) == packages_of(cv.take(i as int), max_api as int),
        decreases cs.len() - i,
    {
        assert(cv.take(i + 1).drop_last() =~= cv.take(i as int));
        assert(cv[i as int] == cs@[i as int]@);
        match package_of_exec(&cs[i], max_api) {
            Some(p) => {
                let ghost prev = out@;
                out.push(p);
                assert(package_views(out@) =~= package_views(prev).push(
                    package_view(out@[prev.len() as int]),
                ));
            },
            None => {},
        }
        i += 1;
    }
    assert(cv.take(cv.len() as int) =~= cv);
    out
}


// ───────────────────────────── merging and ordering ─────────────────────────────

/// The first package at or after `i` with this id.
pub open spec fn find_id_from(d: Seq<PackageModel>, id: Seq<char>, i: int) -> Option<int>
    decreases d.len() - i,
{
    if i < 0 || i >= d.len() {
        None
    } else if d[i].id == id {
        Some(i)
    } else {
        find_id_from(d, id, i + 1)
    }
}

pub open spec fn with_installed(p: PackageModel) -> PackageModel {
    PackageModel {
        id: p.id,
        name: p.name,
        desc: p.desc,
        version: p.version,
        installed: true,
        category: p.category,
    }
}

/// One package per id, in the order ids first appear; a package is installed when any
/// line of its id was in the installed section.
pub open spec fn merge_packages(ps: Seq<PackageModel>) -> Seq<PackageModel>
    decreases ps.len(),
{
    if ps.len() == 0 {
        seq![]
    } else {
        let d = merge_packages(ps.drop_last());
        let p = ps.last();
        match find_id_from(d, p.id, 0) {
            Some(j) => if p.installed {
                d.update(j, with_installed(d[j]))
            } else {
                d
            },
            None => d.push(p),
        }
    }
}

pub open spec fn unique_ids(d: Seq<PackageModel>) -> bool {
    forall|a: int, b: int| 0 <= a < b < d.len() ==> #[trigger] d[a].id != #[trigger] d[b].id
}

pub proof fn lemma_find_id_from(d: Seq<PackageModel>, id: Seq<char>, i: int)
    requires
        0 <= i,
    ensures
        find_id_from(d, id, i) matches Some(j) ==> i <= j < d.len() && d[j].id == id,
        find_id_from(d, id, i) is None ==> forall|k: int| i <= k < d.len() ==> d[k].id != id,
    decreases d.len() - i,
{
    if i < d.len() && d[i].id != id {
        lemma_find_id_from(d, id, i + 1);
    }
}

pub proof fn lemma_merge_unique(ps: Seq<PackageModel>)
    ensures
        unique_ids(merge_packages(ps)),
    decreases ps.len(),
{
    if ps.len() > 0 {
        lemma_merge_unique(ps.drop_last());
        let d = merge_packages(ps.drop_last());
        lemma_find_id_from(d, ps.last().id, 0);
    }
}

/// Text order of `str` (code point by code point; a proper prefix comes first).
pub open spec fn text_less(a: Seq<char>, b: Seq<char>) -> bool
    decreases a.len(),
{
    if a.len() == 0 {
        b.len() > 0
    } else if b.len() == 0 {
        false
    } else if (a[0] as u32) < (b[0] as u32) {
        true
    } else if a[0] == b[0] {
        text_less(a.drop_first(), b.drop_first())
    } else {
        false
    }
}

pub proof fn lemma_text_less_irreflexive(a: Seq<char>)
    ensures
        !text_less(a, a),
    decreases a.len(),
{
    if a.len() > 0 {
        lemma_text_less_irreflexive(a.drop_first());
    }
}

pub proof fn lemma_text_less_total(a: Seq<char>, b: Seq<char>)
    ensures
        a != b ==> text_less(a, b) || text_less(b, a),
    decreases a.len(),
{
    if a.len() > 0 && b.len() > 0 {
        if a[0] == b[0] {
            lemma_text_less_total(a.drop_first(), b.drop_first());
            if a.drop_first() == b.drop_first() {
                assert(a =~= seq![a[0]] + a.drop_first());
                assert(b =~= seq![b[0]] + b.drop_first());
            }
        } else {
            vstd::utf8::char_u32_cast(a[0], a[0] as u32);
            vstd::utf8::char_u32_cast(b[0], b[0] as u32);
        }
    } else if a.len() == 0 && b.len() == 0 {
        assert(a =~= b);
    }
}

pub proof fn lemma_text_less_asymmetric(a: Seq<char>, b: Seq<char>)
    ensures
        text_less(a, b) ==> !text_less(b, a),
    decreases a.len(),
{
    if a.len() > 0 && b.len() > 0 && a[0] == b[0] {
        lemma_text_less_asymmetric(a.drop_first(), b.drop_first());
    }
}

pub proof fn lemma_text_less_transitive(a: Seq<char>, b: Seq<char>, c: Seq<char>)
    ensures
        text_less(a, b) && text_less(b, c) ==> text_less(a, c),
    decreases a.len(),
{
    if a.len() > 0 && b.len() > 0 && c.len() > 0 {
        lemma_text_less_transitive(a.drop_first(), b.drop_first(), c.drop_first());
    }
}

/// Strictly descending by id.
pub open spec fn descending_ids(r: Seq<PackageModel>) -> bool {
    forall|a: int, b: int| 0 <= a < b < r.len() ==> text_less(#[trigger] r[b].id, #[trigger] r[a].id)
}

fn text_less_exec(a: &Vec<char>, b: &Vec<char>) -> (r: bool)
    ensures
        r == text_less(a@, b@),
{
    let mut i: usize = 0;
    assert(a@.subrange(0, a@.len() as int) =~= a@);
    assert(b@.subrange(0, b@.len() as int) =~= b@);
    while i < a.len() && i < b.len() && a[i] == b[i]
        invariant
            i <= a.len(),
            i <= b.len(),
            text_less(a@, b@) == text_less(a@.subrange(i as int, a@.len() as int), b@.subrange(
                i as int,
                b@.len() as int,
            )),
        decreases a.len() - i,
    {
        assert(a@.subrange(i as int, a@.len() as int).drop_first() =~= a@.subrange(
            i + 1,
            a@.len() as int,
        ));
        assert(b@.subrange(i as int, b@.len() as int).drop_first() =~= b@.subrange(
            i + 1,
            b@.len() as int,
        ));
        i += 1;
    }
    if i == a.len() {
        i < b.len()
    } else if i == b.len() {
        false
    } else {
        (a[i] as u32) < (b[i] as u32)
    }
}

fn same_text(a: &Vec<char>, b: &Vec<char>) -> (r: bool)
    ensures
        r == (a@ == b@),
{
    let r = a.len() == b.len() && crate::text::starts_with_exec(a, b);
    proof {
        assert(a@.subrange(0, a@.len() as int) =~= a@);
        if a@ == b@ {
            assert(a@.subrange(0, b@.len() as int) =~= b@);
        }
    }
    r
}

fn clone_package(p: &SdkPackageInfo, installed: bool) -> (r: SdkPackageInfo)
    ensures
        r.id@ == p.id@,
        r.name@ == p.name@,
        r.desc@ == p.desc@,
        r.version@ == p.version@,
        r.category@ == p.category@,
        r.installed == installed,
{
    SdkPackageInfo {
        id: p.id.clone(),
        name: p.name.clone(),
        desc: p.desc.clone(),
        version: p.version.clone(),
        installed,
        category: p.category.clone(),
    }
}

fn find_package(out: &Vec<SdkPackageInfo>, id: &str) -> (r: Option<usize>)
    ensures
        r matches Some(k) ==> find_id_from(package_views(out@), id@, 0) == Some(k as int),
        r is None ==> find_id_from(package_views(out@), id@, 0) is None,
{
    let ghost d = package_views(out@);
    let idv = chars_of(id);
    let mut j: usize = 0;
    while j < out.len()
        invariant
            j <= out.len(),
            d == package_views(out@),
            idv@ == id@,
            find_id_from(d, id@, 0) == find_id_from(d, id@, j as int),
        decreases out.len() - j,
    {
        assert(d[j as int] == package_view(out@[j as int]));
        if same_text(&chars_of(out[j].id.as_str()), &idv) {
            return Some(j);
        }
        j += 1;
    }
    None
}

/// One package per id (installed when any of its lines was), first-appearance order.
pub fn merge_duplicate_packages(ps: &Vec<SdkPackageInfo>) -> (r: Vec<SdkPackageInfo>)
    ensures
        package_views(r@) == merge_packages(package_views(ps@)),
{
    let ghost pv = package_views(ps@);
    let mut out: Vec<SdkPackageInfo> = Vec::new();
    let mut i: usize = 0;
    while i < ps.len()
        invariant
            i <= ps.len(),
            pv == package_views(ps@),
            package_views(out@) == merge_packages(pv.take(i as int)),
        decreases ps.len() - i,
    {
        assert(pv.take(i + 1).drop_last() =~= pv.take(i as int));
        assert(pv[i as int] == package_view(ps@[i as int]));
        let ghost d = package_views(out@);
        let found = find_package(&out, ps[i].id.as_str());
        proof {
            lemma_find_id_from(d, pv[i as int].id, 0);
        }
        match found {
            Some(k) => {
                if ps[i].installed {
                    let q = clone_package(&out[k], true);
                    out.set(k, q);
                    assert(package_views(out@) =~= d.update(k as int, with_installed(d[k as int])));
                }
            },
            None => {
                let q = clone_package(&ps[i], ps[i].installed);
                out.push(q);
                assert(package_views(out@) =~= d.push(pv[i as int]));
            },
        }
        i += 1;
    }
    assert(pv.take(pv.len() as int) =~= pv);
    out
}

/// The packages ordered by id, descending (ids must differ).
pub fn sort_packages_by_id_desc(d: Vec<SdkPackageInfo>) -> (r: Vec<SdkPackageInfo>)
    requires
        unique_ids(package_views(d@)),
    ensures
        descending_ids(package_views(r@)),
        r@.len() == d@.len(),
        forall|x: PackageModel| package_views(r@).contains(x) <==> package_views(d@).contains(x),
{
    let ghost dv = package_views(d@);
    let mut out: Vec<SdkPackageInfo> = Vec::new();
    let mut i: usize = 0;
    while i < d.len()
        invariant
            i <= d.len(),
            dv == package_views(d@),
            unique_ids(dv),
            out@.len() == i,
            descending_ids(package_views(out@)),
            forall|x: PackageModel| package_views(out@).contains(x) <==> dv.take(i as int).contains(x),
        decreases d.len() - i,
    {
        let ghost ov = package_views(out@);
        let x = clone_package(&d[i], d[i].installed);
        let ghost xv = package_view(x);
        assert(xv == dv[i as int]);
        let xid = chars_of(x.id.as_str());
        // x's id differs from every id placed so far
        assert forall|a: int| 0 <= a < ov.len() implies ov[a].id != xv.id by {
            assert(ov.contains(ov[a]));
            assert(dv.take(i as int).contains(ov[a]));
            let m = choose|m: int| 0 <= m < i && #[trigger] dv.take(i as int)[m] == ov[a];
            assert(dv[m].id != dv[i as int].id);
        }
        let mut k: usize = 0;
        while k < out.len() && !text_less_exec(&chars_of(out[k].id.as_str()), &xid)
            invariant
                k <= out.len(),
                ov == package_views(out@),
                xid@ == xv.id,
                forall|a: int| 0 <= a < k ==> text_less(xv.id, #[trigger] ov[a].id),
                forall|a: int| 0 <= a < ov.len() ==> ov[a].id != xv.id,
            decreases out.len() - k,
        {
            assert(ov[k as int] == package_view(out@[k as int]));
            proof {
                lemma_text_less_total(ov[k as int].id, xv.id);
            }
            k += 1;
        }
        proof {
            if k < ov.len() {
                assert(ov[k as int] == package_view(out@[k as int]));
                assert(text_less(ov[k as int].id, xv.id));
                assert forall|b: int| k <= b < ov.len() implies text_less(#[trigger] ov[b].id, xv.id) by {
                    if b > k {
                        lemma_text_less_transitive(ov[b].id, ov[k as int].id, xv.id);
                    }
                }
            }
        }
        out.insert(k, x);
        proof {
            let nv = package_views(out@);
            assert(nv =~= ov.insert(k as int, xv));
            ov.insert_ensures(k as int, xv);
            assert forall|a: int, b: int| 0 <= a < b < nv.len() implies text_less(#[trigger] nv[b].id, #[trigger] nv[a].id) by {
                if b < k {
                } else if b == k {
                } else if a < k {
                    assert(nv[b] == ov[b - 1]);
                    lemma_text_less_transitive(ov[b - 1].id, xv.id, ov[a].id);
                } else if a == k {
                    assert(nv[b] == ov[b - 1]);
                } else {
                    assert(nv[a] == ov[a - 1] && nv[b] == ov[b - 1]);
                }
            }
            assert(dv.take(i + 1) =~= dv.take(i as int).push(xv));
            assert forall|y: PackageModel| nv.contains(y) <==> dv.take(i + 1).contains(y) by {
                if nv.contains(y) {
                    let m = choose|m: int| 0 <= m < nv.len() && #[trigger] nv[m] == y;
                    if m < k {
                        assert(ov.contains(y));
                    } else if m > k {
                        assert(nv[m] == ov[m - 1]);
                        assert(ov.contains(y));
                    }
                    assert(dv.take(i + 1)[i as int] == xv);
                    if y != xv {
                        assert(dv.take(i as int).contains(y));
                        let q = choose|q: int| 0 <= q < i && #[trigger] dv.take(i as int)[q] == y;
                        assert(dv.take(i + 1)[q] == y);
                    }
                }
                if dv.take(i + 1).contains(y) {
                    let q = choose|q: int| 0 <= q < i + 1 && #[trigger] dv.take(i + 1)[q] == y;
                    if q == i {
                        assert(nv[k as int] == y);
                    } else {
                        assert(dv.take(i as int)[q] == y);
                        assert(ov.contains(y));
                        let m = choose|m: int| 0 <= m < ov.len() && #[trigger] ov[m] == y;
                        if m < k {
                            assert(nv[m] == y);
                        } else {
                            assert(nv[m + 1] == y);
                        }
                    }
                }
            }
        }
        i += 1;
    }
    assert(dv.take(dv.len() as int) =~= dv);
    out
}

/// The system images to offer for an `sdkmanager --list` output: read, filtered,
/// named and categorised, merged per id, ordered by id descending.
pub open spec fn offered_packages(stdout: Seq<char>) -> Seq<PackageModel> {
    let cs = listing_candidates(stdout);
    merge_packages(packages_of(cs, max_api_level(cs)))
}

pub fn sdk_packages_from_listing(stdout: &str) -> (r: Vec<SdkPackageInfo>)
    ensures
        descending_ids(package_views(r@)),
        r@.len() == offered_packages(stdout@).len(),
        forall|x: PackageModel|
            package_views(r@).contains(x) <==> offered_packages(stdout@).contains(x),
{
    let cs = parse_sdk_candidates(stdout);
    let ps = packages_from_candidates(&cs);
    let merged = merge_duplicate_packages(&ps);
    proof {
        lemma_merge_unique(package_views(ps@));
    }
    sort_packages_by_id_desc(merged)
}

} // verus!
