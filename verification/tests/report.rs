use mkd_scan::archive::ArchiveKind;
use mkd_scan::report::{Report, Stream};

fn out(report: Report, text: &str) {
    let line = report.render();
    assert_eq!(line.stream, Stream::Stdout);
    assert_eq!(line.text, text);
}

fn err(report: Report, text: &str) {
    let line = report.render();
    assert_eq!(line.stream, Stream::Stderr);
    assert_eq!(line.text, text);
}

#[test]
fn lines_of_the_walk() {
    out(
        Report::ManifestCount { count: 3, dir: "x/Contents".to_string() },
        "3 JSON file in x/Contents, which is unexpected",
    );
    out(
        Report::Product { title: "T".to_string(), dir: "D".to_string(), version: "1".to_string() },
        "T [D(1)]",
    );
    out(
        Report::Content { title: "T".to_string(), dir: "D".to_string(), version: "1".to_string() },
        "\tT [D(1)]",
    );
    out(
        Report::Found { group: "audio".to_string(), file: "audio.map".to_string() },
        "\t\taudio: audio.map",
    );
    out(
        Report::Others { group: "audio".to_string(), tally: "rsc: 12".to_string() },
        "\t\taudio: rsc: 12",
    );
}

#[test]
fn lines_of_opening() {
    out(Report::Opened { kind: ArchiveKind::IndexedPair }, "\t\t\tinitialized rsc(map|idx)");
    out(Report::Opened { kind: ArchiveKind::NonIndexed }, "\t\t\tinitialized nrsc(nidx)");
    err(
        Report::OpenFailed { kind: ArchiveKind::IndexedPair, error: "IOError".to_string() },
        "failed to parse rsc(map|idx): IOError",
    );
    err(
        Report::OpenFailed { kind: ArchiveKind::NonIndexed, error: "FopenError".to_string() },
        "failed to parse nrsc(nidx): FopenError",
    );
    out(
        Report::KeystoreOpened { file: "headword.keystore".to_string() },
        "\t\t\tinitialized keystore from headword.keystore",
    );
    err(
        Report::KeystoreFailed {
            file: "headword.keystore".to_string(),
            error: "KeyFileHeaderValidate".to_string(),
        },
        "failed to parse keystore from headword.keystore: KeyFileHeaderValidate",
    );
}

#[test]
fn lines_of_an_extraction() {
    out(Report::Entries { count: 1234 }, "\t\t\t1234 entries");
    out(Report::Entries { count: 0 }, "\t\t\t0 entries");
    out(Report::Listed { name: "0000000007.aac".to_string() }, "\t\t\t0000000007.aac");
    err(
        Report::FetchFailed { index: 5, error: "ZlibError".to_string() },
        "failed to get resource 5: ZlibError",
    );
    err(
        Report::DirFailed { dir: "out/a/b".to_string(), error: "Permission denied".to_string() },
        "failed to create dir out/a/b: Permission denied",
    );
    err(
        Report::CreateFailed { path: "out/a/b/1.xml".to_string(), error: "exists".to_string() },
        "failed to create file out/a/b/1.xml: exists",
    );
    err(
        Report::WriteFailed { path: "out/a/b/1.xml".to_string(), error: "disk full".to_string() },
        "error writing file out/a/b/1.xml: disk full",
    );
    out(Report::Success { count: 98 }, "\t\t\tsuccess: 98");
    out(Report::Failure { tally: "ZlibError: 2".to_string() }, "\t\t\tfailure: ZlibError: 2");
}
