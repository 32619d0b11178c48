use jian_guo_yun_relay::webdav::propfind::propfind_multistatus;

#[test]
fn includes_common_file_metadata_fields() {
    let xml = propfind_multistatus(
        "/KeePass/数据库.kdbx",
        "数据库.kdbx",
        Some("24439"),
        Some("\"etag-1\""),
        Some("Fri, 24 Apr 2026 06:00:50 GMT"),
    );

    assert!(xml.contains("<D:getcontenttype>application/octet-stream</D:getcontenttype>"));
    assert!(xml.contains("<D:getcontentlength>24439</D:getcontentlength>"));
    assert!(xml.contains("<D:getetag>\"etag-1\"</D:getetag>"));
    assert!(xml.contains("<D:getlastmodified>Fri, 24 Apr 2026 06:00:50 GMT</D:getlastmodified>"));
}
