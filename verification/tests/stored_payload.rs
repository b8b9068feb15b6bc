use image::{DynamicImage, ImageFormat, RgbaImage};
use quickpaste_history::payload::{
    attach_stored_format, item_json_columns, logical_bytes, pending_row_thumbnail, png_data_url, stored_format_row,
};
use quickpaste_history::types::{ClipboardFile, ClipboardFormat, HistoryItem};
use std::io::Cursor;

fn png_bytes(width: u32, height: u32) -> Vec<u8> {
    let image = RgbaImage::from_pixel(width, height, image::Rgba([10, 20, 30, 255]));
    let mut cursor = Cursor::new(Vec::new());
    DynamicImage::ImageRgba8(image)
        .write_to(&mut cursor, ImageFormat::Png)
        .expect("encode png");
    cursor.into_inner()
}

fn summary(id: &str) -> HistoryItem {
    HistoryItem {
        id: id.into(),
        kind: "text".into(),
        title: "标题".into(),
        content: "正文".into(),
        source_app: "Test App".into(),
        source_app_icon: None,
        copied_at: "2026-07-01T00:00:00.000Z".into(),
        updated_at: "2026-07-01T00:00:00.000Z".into(),
        pinned: false,
        permanent: false,
        collection_id: None,
        search_terms: Vec::new(),
        ocr_text: None,
        ocr_status: None,
        image_hash: None,
        match_source: None,
        color: None,
        dimensions: None,
        formats: Vec::new(),
        omitted_formats: Vec::new(),
        payload_loaded: true,
        html: None,
        rtf_base64: None,
        image_url: None,
        files: Vec::new(),
    }
}

#[test]
fn stored_html_must_be_utf8() {
    let mut item = summary("h1");
    assert_eq!(
        attach_stored_format(&mut item, "html".into(), Some("text/html".into()), Some(b"<b>x</b>".to_vec())),
        Ok(())
    );
    assert_eq!(item.html.as_deref(), Some("<b>x</b>"));
    assert_eq!(item.formats, vec!["html".to_owned()]);

    let mut broken = summary("h2");
    let expected = String::from_utf8(vec![0xff, 0x41]).unwrap_err().to_string();
    assert_eq!(
        attach_stored_format(&mut broken, "html".into(), None, Some(vec![0xff, 0x41])),
        Err(expected)
    );
    assert_eq!(broken.html, None);
}

#[test]
fn stored_rtf_and_images_are_sent_as_base64() {
    let mut item = summary("r1");
    assert_eq!(
        attach_stored_format(&mut item, "rtf".into(), None, Some(b"{\\rtf1}".to_vec())),
        Ok(())
    );
    assert_eq!(item.rtf_base64.as_deref(), Some("e1xydGYxfQ=="));

    assert_eq!(
        attach_stored_format(&mut item, "image".into(), None, Some(vec![0, 1, 2])),
        Ok(())
    );
    assert_eq!(item.image_url.as_deref(), Some("data:image/png;base64,AAEC"));

    let mut jpeg = summary("j1");
    assert_eq!(
        attach_stored_format(&mut jpeg, "image".into(), Some("image/jpeg".into()), Some(vec![0xff])),
        Ok(())
    );
    assert_eq!(jpeg.image_url.as_deref(), Some("data:image/jpeg;base64,/w=="));
    assert_eq!(item.formats, vec!["rtf".to_owned(), "image".to_owned()]);
}

#[test]
fn stored_text_carries_no_body_and_unknown_formats_are_refused() {
    let mut item = summary("t1");
    assert_eq!(attach_stored_format(&mut item, "text".into(), None, None), Ok(()));
    assert_eq!(item.formats, vec!["text".to_owned()]);
    assert_eq!(item.html, None);
    assert_eq!(item.content, "正文");

    assert_eq!(
        attach_stored_format(&mut item, "files".into(), None, None),
        Err("历史记录包含未知格式 files".to_owned())
    );
}

#[test]
fn thumbnails_are_sent_as_png_data_urls() {
    assert_eq!(png_data_url(&[0, 1, 2]), "data:image/png;base64,AAEC");
    assert_eq!(png_data_url(&[]), "data:image/png;base64,");
}

#[test]
fn formats_are_written_with_their_mime_and_body() {
    let mut item = summary("w1");
    assert_eq!(
        stored_format_row(&item, "text"),
        Ok((Some("text/plain".to_owned()), None))
    );
    item.html = Some("<i>é</i>".into());
    assert_eq!(
        stored_format_row(&item, "html"),
        Ok((Some("text/html".to_owned()), Some("<i>é</i>".as_bytes().to_vec())))
    );
    item.rtf_base64 = Some("e1xydGYxfQ==".into());
    assert_eq!(
        stored_format_row(&item, "rtf"),
        Ok((Some("application/rtf".to_owned()), Some(b"{\\rtf1}".to_vec())))
    );
    item.rtf_base64 = Some("@@".into());
    assert!(stored_format_row(&item, "rtf").is_err());
    assert_eq!(stored_format_row(&item, "image"), Ok((None, None)));
    item.image_url = Some("data:image/png;base64,AAEC".into());
    assert_eq!(
        stored_format_row(&item, "image"),
        Ok((Some("image/png".to_owned()), Some(vec![0, 1, 2])))
    );
    item.image_url = Some("data:image/png,AAEC".into());
    assert_eq!(
        stored_format_row(&item, "image"),
        Err("图片数据 URL 格式无效".to_owned())
    );
    assert_eq!(
        stored_format_row(&item, "files"),
        Err("不支持的剪贴板格式 files".to_owned())
    );
}

#[test]
fn only_png_rows_get_a_pending_thumbnail() {
    let png = png_bytes(200, 100);
    let thumbnail = pending_row_thumbnail(&Some("image/png".into()), &Some(png.clone()))
        .expect("thumbnail");
    assert!(!thumbnail.is_empty());
    assert_eq!(pending_row_thumbnail(&Some("image/jpeg".into()), &Some(png.clone())), None);
    assert_eq!(pending_row_thumbnail(&Some("image/png".into()), &None), None);
    assert_eq!(pending_row_thumbnail(&None, &Some(png)), None);
    assert_eq!(pending_row_thumbnail(&Some("image/png".into()), &Some(vec![1, 2, 3])), None);
}

#[test]
fn logical_size_sums_the_bodies_and_ignores_metadata() {
    let mut item = summary("s1");
    item.content = "abc".into();
    item.html = Some("<b>".into());
    item.rtf_base64 = Some("e1xydGYxfQ==".into());
    item.files.push(ClipboardFile {
        path: "p".into(),
        name: "n".into(),
        extension: None,
        size: None,
        modified_at: None,
        directory: false,
        exists: true,
    });
    assert_eq!(logical_bytes(&item), Ok(3 + 3 + 7 + 2));
    item.title = "another title".into();
    item.search_terms = vec!["term".into()];
    item.image_url = Some("data:image/png;base64,AAEC".into());
    assert_eq!(logical_bytes(&item), Ok(15));
}

#[test]
fn search_terms_and_omitted_formats_are_stored_as_json_arrays() {
    let mut item = summary("j2");
    item.search_terms = vec!["a\"b".into(), "c".into()];
    item.omitted_formats = vec![ClipboardFormat::Html, ClipboardFormat::Rtf];
    let (terms, formats) = item_json_columns(&item);
    assert_eq!(terms, r#"["a\"b","c"]"#);
    assert_eq!(formats, r#"["html","rtf"]"#);
    let empty = summary("j3");
    assert_eq!(item_json_columns(&empty), ("[]".to_owned(), "[]".to_owned()));
}
