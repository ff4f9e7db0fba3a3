use mkd_scan::dict::{fmt_ml_str, pick_manifest, scan_dict, MkdContent, MkdProduct};
use mkd_scan::report::{Report, Stream};

fn title(pairs: &[(&str, &str)]) -> Vec<(String, String)> {
    pairs.iter().map(|(lang, text)| (lang.to_string(), text.to_string())).collect()
}

#[test]
fn a_title_in_one_language() {
    assert_eq!(fmt_ml_str(&title(&[("ja", "大辞泉")])), "大辞泉");
}

#[test]
fn a_title_in_several_languages() {
    assert_eq!(
        fmt_ml_str(&title(&[("ja", "大辞泉"), ("en", "Daijisen")])),
        "大辞泉 | Daijisen"
    );
}

#[test]
fn equal_texts_collapse() {
    assert_eq!(
        fmt_ml_str(&title(&[("ja", "OALD"), ("en", "OALD"), ("zh", "牛津"), ("de", "OALD")])),
        "OALD | 牛津"
    );
}

#[test]
fn a_title_without_text() {
    assert_eq!(fmt_ml_str(&Vec::new()), "");
}

#[test]
fn one_manifest_is_picked() {
    let picked = pick_manifest("dict/Contents", vec!["dict/Contents/NHK.json".to_string()]);
    assert_eq!(picked, Ok("dict/Contents/NHK.json".to_string()));
}

#[test]
fn two_manifests_are_a_count_mismatch() {
    let picked = pick_manifest(
        "dict/Contents",
        vec!["dict/Contents/a.json".to_string(), "dict/Contents/b.json".to_string()],
    );
    let report = picked.unwrap_err();
    assert_eq!(report, Report::ManifestCount { count: 2, dir: "dict/Contents".to_string() });
    let line = report.render();
    assert_eq!(line.stream, Stream::Stdout);
    assert_eq!(line.text, "2 JSON file in dict/Contents, which is unexpected");
}

#[test]
fn no_manifest_is_a_count_mismatch() {
    let report = pick_manifest("d/Contents", Vec::new()).unwrap_err();
    assert_eq!(report, Report::ManifestCount { count: 0, dir: "d/Contents".to_string() });
    assert_eq!(report.render().text, "0 JSON file in d/Contents, which is unexpected");
}

fn product() -> MkdProduct {
    MkdProduct {
        title: title(&[("ja", "ウィズダム"), ("en", "Wisdom")]),
        ver: "3.1".to_string(),
        contents: vec![
            MkdContent {
                title: title(&[("ja", "英和")]),
                ver: "1.0".to_string(),
                dir: "wisdom_ej".to_string(),
            },
            MkdContent {
                title: title(&[("ja", "和英"), ("en", "和英")]),
                ver: "1.2".to_string(),
                dir: "wisdom_je".to_string(),
            },
        ],
    }
}

#[test]
fn the_product_is_reported_first() {
    let plan = scan_dict("WISDOM3", &product());
    assert_eq!(
        plan.header,
        Report::Product {
            title: "ウィズダム | Wisdom".to_string(),
            dir: "WISDOM3".to_string(),
            version: "3.1".to_string(),
        }
    );
    assert_eq!(plan.header.render().text, "ウィズダム | Wisdom [WISDOM3(3.1)]");
}

#[test]
fn every_content_entry_is_visited_in_order() {
    let plan = scan_dict("WISDOM3", &product());
    assert_eq!(plan.visits.len(), 2);
    assert_eq!(plan.visits[0].dir, "wisdom_ej");
    assert_eq!(plan.visits[1].dir, "wisdom_je");
    assert_eq!(
        plan.visits[0].report,
        Report::Content {
            title: "英和".to_string(),
            dir: "wisdom_ej".to_string(),
            version: "1.0".to_string(),
        }
    );
    assert_eq!(plan.visits[1].report.render().text, "\t和英 [wisdom_je(1.2)]");
}

#[test]
fn a_product_without_contents_is_only_reported() {
    let p = MkdProduct {
        title: title(&[("en", "Empty")]),
        ver: "0".to_string(),
        contents: Vec::new(),
    };
    let plan = scan_dict("E", &p);
    assert!(plan.visits.is_empty());
    assert_eq!(plan.header.render().text, "Empty [E(0)]");
}
