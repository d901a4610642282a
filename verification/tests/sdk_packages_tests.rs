use kb_emulator_manager::sdk_packages::{is_codename_id, is_preview_id, package_display_name};
use kb_emulator_manager::sdk_packages::{
    merge_duplicate_packages, packages_from_candidates, parse_sdk_candidates,
    sdk_packages_from_listing, sort_packages_by_id_desc,
};
use kb_emulator_manager::types::SdkPackageInfo;

const LISTING: &str = "Installed packages:
  Path                                          | Version | Description                                | Location
  -------                                       | ------- | -------                                    | -------
  emulator                                      | 35.1.4  | Android Emulator                           | emulator
  system-images;android-34;google_apis;x86_64   | 14      | Google APIs Intel x86_64 Atom System Image | system-images/android-34/google_apis/x86_64

Available Packages:
  Path                                                        | Version | Description
  -------                                                     | ------- | -------
  system-images;android-34;google_apis;x86_64                 | 14      | Google APIs Intel x86_64 Atom System Image
  system-images;android-34;google_apis_playstore;x86_64       | 14      | Google Play Intel x86_64 Atom System Image
  system-images;android-29;default;x86_64                     | 8       | Intel x86_64 Atom System Image
  system-images;android-34;google_apis;arm64-v8a              | 14      | Google APIs ARM 64 v8a System Image
  system-images;android-35;google_apis_ps16k;x86_64           | 2       | 16k
  system-images;android-34;google_apis_ps16k;x86_64           | 2       | old 16k
  system-images;android-34-ext12;google_apis;x86_64           | 1       | ext
  system-images;android-CinnamonBun;google_apis;x86_64        | 1       | codename
  system-images;android-33;android-wear;x86_64                | 5       | Wear OS
  system-images;android-31;google-tv;x86_64                   | 3       | TV
  system-images;android-30;android-automotive;x86_64          | 2       | Auto
  system-images;android-36.1;google_apis;x86_64               | 1       | Next
  system-images;android-36;google_apis_ps16k;x86_64           | 1       | 16k latest
  system-images;android-35;google_apis_preview;x86_64         | 1       | Preview
";

fn row(p: &SdkPackageInfo) -> (String, String, String, String, bool, String) {
    (p.id.clone(), p.name.clone(), p.desc.clone(), p.version.clone(), p.installed, p.category.clone())
}

fn want(id: &str, name: &str, desc: &str, version: &str, installed: bool, category: &str) -> (String, String, String, String, bool, String) {
    (id.into(), name.into(), desc.into(), version.into(), installed, category.into())
}

#[test]
fn listing_to_offered_images() {
    let got: Vec<_> = sdk_packages_from_listing(LISTING).iter().map(row).collect();
    let expected = vec![
        want("system-images;android-36;google_apis_ps16k;x86_64", "Android 16 (Beta/Preview) (API 36) · GOOGLE APIS PS16K [16 KB Page Size]", "16k latest", "1", false, "Beta / Preview"),
        want("system-images;android-36.1;google_apis;x86_64", "Android 16 (Beta/Preview) (API 36) · GOOGLE APIS", "Next", "1", false, "Beta / Preview"),
        want("system-images;android-35;google_apis_preview;x86_64", "Android 15 (Beta/Preview) (API 35) · GOOGLE APIS PREVIEW", "Preview", "1", false, "Beta / Preview"),
        want("system-images;android-34;google_apis_playstore;x86_64", "Android 14 (API 34) · GOOGLE APIS PLAYSTORE", "Google Play Intel x86_64 Atom System Image", "14", false, "Stable (Play Store)"),
        want("system-images;android-34;google_apis;x86_64", "Android 14 (API 34) · GOOGLE APIS", "Google APIs Intel x86_64 Atom System Image", "14", true, "Stable (Google APIs)"),
        want("system-images;android-33;android-wear;x86_64", "Android 13 (API 33) · ANDROID-WEAR", "Wear OS", "5", false, "Wear OS"),
        want("system-images;android-31;google-tv;x86_64", "Android 12 (API 31) · GOOGLE-TV", "TV", "3", false, "Android TV"),
        want("system-images;android-30;android-automotive;x86_64", "Android 11 (API 30) · ANDROID-AUTOMOTIVE", "Auto", "2", false, "Automotive"),
    ];
    assert_eq!(got, expected);
}

#[test]
fn candidates_keep_section_and_fields() {
    let cs = parse_sdk_candidates(LISTING);
    assert_eq!(cs.len(), 11);
    assert!(cs[0].installed);
    assert!(!cs[1].installed);
    assert_eq!(cs[0].api_level, 34);
    assert_eq!(cs[0].variant, "google_apis");
    assert_eq!(cs[2].id, "system-images;android-34;google_apis_playstore;x86_64");
    assert_eq!(cs[3].id, "system-images;android-35;google_apis_ps16k;x86_64");
    assert!(cs[3].is_16k);
    assert!(!cs[2].is_16k);
    assert_eq!(cs[8].api_level, 36);
    // a line without a second field is no candidate
    assert!(parse_sdk_candidates("system-images;android-34;x;x86_64\n").is_empty());
    // without a description field the description is empty
    let cs = parse_sdk_candidates("system-images;android-34;x;x86_64 | 3\n");
    assert_eq!(cs.len(), 1);
    assert_eq!(cs[0].desc, "");
    assert!(cs[0].installed);
}

#[test]
fn sixteen_kb_images_only_at_the_newest_level() {
    let cs = parse_sdk_candidates("system-images;android-34;a_ps16k;x86_64 | 1 | d\nsystem-images;android-35;b;x86_64 | 1 | d\n");
    let ps = packages_from_candidates(&cs);
    assert_eq!(ps.len(), 1);
    assert_eq!(ps[0].name, "Android 15 (Beta/Preview) (API 35) · B");
    assert_eq!(ps[0].category, "Beta / Preview");
    let cs = parse_sdk_candidates("system-images;android-35;a_ps16k;x86_64 | 1 | d\nsystem-images;android-34;b;x86_64 | 1 | d\n");
    let ps = packages_from_candidates(&cs);
    assert_eq!(ps.len(), 2);
    assert_eq!(ps[0].name, "Android 15 (Beta/Preview) (API 35) · A PS16K [16 KB Page Size]");
    assert_eq!(ps[1].name, "Android 14 (API 34) · B");
    // with no candidates the newest level is taken to be 36
    assert!(packages_from_candidates(&Vec::new()).is_empty());
}

#[test]
fn merging_and_ordering() {
    let p = |id: &str, installed: bool| SdkPackageInfo {
        id: id.to_string(),
        name: format!("n{}", id),
        desc: String::new(),
        version: String::new(),
        installed,
        category: String::new(),
    };
    let merged = merge_duplicate_packages(&vec![p("b", false), p("a", false), p("b", true), p("a", false)]);
    assert_eq!(merged.iter().map(|x| (x.id.clone(), x.installed)).collect::<Vec<_>>(), vec![("b".to_string(), true), ("a".to_string(), false)]);
    let sorted = sort_packages_by_id_desc(vec![p("ab", false), p("b", false), p("a", false), p("Z", false)]);
    assert_eq!(sorted.iter().map(|x| x.id.clone()).collect::<Vec<_>>(), vec!["b", "ab", "a", "Z"]);
}

#[test]
fn image_id_readers_and_display_names() {
    assert!(is_codename_id("system-images;android-cinnamonbun;google_apis;x86_64"));
    assert!(is_codename_id("system-images;android-canary;x;x86_64"));
    assert!(!is_codename_id("system-images;android-CANARY;x;x86_64"));
    assert!(is_preview_id("system-images;android-35;google_apis_preview;x86_64"));
    assert!(is_preview_id("system-images;android-35;beta;x86_64"));
    assert!(!is_preview_id("system-images;android-35;google_apis;x86_64"));
    assert_eq!(
        package_display_name(36, true, "GOOGLE APIS PS16K", true),
        "Android 16 (Beta/Preview) (API 36) · GOOGLE APIS PS16K [16 KB Page Size]"
    );
    assert_eq!(package_display_name(32, false, "X", false), "Android 12 (API 32) · X");
    assert_eq!(package_display_name(30, false, "X", false), "Android 11 (API 30) · X");
    assert_eq!(package_display_name(29, false, "X", false), "Android 29 (API 29) · X");
}
