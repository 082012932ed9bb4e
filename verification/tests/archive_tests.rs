use std::io::Read;
use std::io::Write;

use syncopy::archive::ArchiveWriter;

#[test]
fn finalizing_yields_framed_bytes_even_with_no_entries() {
    // the writer itself always closes into non-empty framed bytes; refusing
    // to finalize an empty archive is the engine's job, not the writer's
    let writer = ArchiveWriter::new();
    let bytes = writer.finalize().unwrap_or_else(|_| panic!("finalize must succeed"));
    assert!(bytes.len() > 0);
}

#[test]
fn writer_produces_a_readable_archive() {
    let root = tempfile::tempdir().unwrap();
    let mut file = tempfile::Builder::new()
        .prefix("payload.bin")
        .rand_bytes(0)
        .keep(true)
        .tempfile_in(root.path())
        .unwrap();
    file.write_all(b"payload-bytes").unwrap();
    file.flush().unwrap();
    let file_path = file.path().to_str().unwrap().to_string();
    let dir_path = root.path().to_str().unwrap().to_string();

    let mut writer = ArchiveWriter::new();
    writer.append_dir(&"d".to_string(), &dir_path).unwrap_or_else(|_| panic!("append_dir"));
    writer
        .append_file(&"d/payload.bin".to_string(), &file_path)
        .unwrap_or_else(|_| panic!("append_file"));
    let bytes = writer.finalize().unwrap_or_else(|_| panic!("finalize"));
    assert!(bytes.len() > 0);

    let dec = flate2::read::GzDecoder::new(&bytes[..]);
    let mut archive = tar::Archive::new(dec);
    let mut names = Vec::new();
    for entry in archive.entries().unwrap() {
        let mut entry = entry.unwrap();
        let name = entry.path().unwrap().to_str().unwrap().trim_end_matches('/').to_string();
        let mut contents = Vec::new();
        entry.read_to_end(&mut contents).unwrap();
        if name == "d/payload.bin" {
            assert_eq!(contents, b"payload-bytes");
        }
        names.push(name);
    }
    assert_eq!(names, vec!["d".to_string(), "d/payload.bin".to_string()]);
}
