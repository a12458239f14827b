use unicode_player::youtube::{
    extract_search_results, initial_data_from_html, parse_video, search_url, Json,
};
use unicode_player::{export_header, parse_dims};

fn obj(fields: Vec<(&str, Json)>) -> Json {
    Json::Obj(
        fields
            .into_iter()
            .map(|(k, v)| (k.to_string(), v))
            .collect(),
    )
}

fn text_runs(text: &str) -> Json {
    obj(vec![(
        "runs",
        Json::Arr(vec![obj(vec![("text", Json::Str(text.to_string()))])]),
    )])
}

fn video(title: &str, uploader: &str, id: &str) -> Json {
    obj(vec![
        ("title", text_runs(title)),
        ("ownerText", text_runs(uploader)),
        (
            "navigationEndpoint",
            obj(vec![(
                "watchEndpoint",
                obj(vec![("videoId", Json::Str(id.to_string()))]),
            )]),
        ),
    ])
}

fn results_page(videos: Vec<Json>) -> Json {
    let items: Vec<Json> = videos
        .into_iter()
        .map(|v| obj(vec![("videoRenderer", v)]))
        .collect();
    obj(vec![(
        "contents",
        obj(vec![(
            "twoColumnSearchResultsRenderer",
            obj(vec![(
                "primaryContents",
                obj(vec![(
                    "sectionListRenderer",
                    obj(vec![(
                        "contents",
                        Json::Arr(vec![obj(vec![(
                            "itemSectionRenderer",
                            obj(vec![("contents", Json::Arr(items))]),
                        )])]),
                    )]),
                )]),
            )]),
        )]),
    )])
}

#[test]
fn search_url_encodes_plus_joined_query() {
    assert_eq!(
        search_url("a b"),
        "https://www.youtube.com/results?search_query=a%2Bb&sp=EgIQAQ%253D%253D"
    );
    assert_eq!(
        search_url("hello"),
        "https://www.youtube.com/results?search_query=hello&sp=EgIQAQ%253D%253D"
    );
}

#[test]
fn initial_data_payload_is_found_and_stripped() {
    let html = "<html><head><script>var x = 1;</script>\
                <script>var ytInitialData = {\"a\":1};</script></head><body></body></html>";
    let payload = initial_data_from_html(html);
    assert_eq!(payload, Some("{\"a\":1}".to_string()));
}

#[test]
fn missing_initial_data_yields_nothing() {
    let html = "<html><head><script>var other = 2;</script></head><body></body></html>";
    assert_eq!(initial_data_from_html(html), None);
}

#[test]
fn parse_video_reads_title_uploader_and_locator() {
    let v = video("A Title", "An Uploader", "abc123");
    let sr = parse_video(&v).expect("well-formed video entry");
    assert_eq!(sr.title, "A Title");
    assert_eq!(sr.uploader, "An Uploader");
    assert_eq!(sr.path, "https://www.youtube.com/watch?v=abc123");
}

#[test]
fn parse_video_rejects_incomplete_entries() {
    let v = obj(vec![("title", text_runs("only a title"))]);
    assert!(parse_video(&v).is_none());
}

#[test]
fn extract_walks_the_page_shape() {
    let page = results_page(vec![
        video("First", "Alice", "id1"),
        video("Second", "Bob", "id2"),
    ]);
    let rs = extract_search_results(&page).expect("well-formed page");
    assert_eq!(rs.len(), 2);
    assert_eq!(rs[0].title, "First");
    assert_eq!(rs[1].uploader, "Bob");
    assert_eq!(rs[1].path, "https://www.youtube.com/watch?v=id2");
}

#[test]
fn extract_skips_items_without_video_renderer() {
    let items = Json::Arr(vec![
        obj(vec![("adRenderer", Json::Null)]),
        obj(vec![("videoRenderer", video("Only", "One", "idx"))]),
    ]);
    let page = obj(vec![(
        "contents",
        obj(vec![(
            "twoColumnSearchResultsRenderer",
            obj(vec![(
                "primaryContents",
                obj(vec![(
                    "sectionListRenderer",
                    obj(vec![(
                        "contents",
                        Json::Arr(vec![obj(vec![(
                            "itemSectionRenderer",
                            obj(vec![("contents", items)]),
                        )])]),
                    )]),
                )]),
            )]),
        )]),
    )]);
    let rs = extract_search_results(&page).expect("well-formed page");
    assert_eq!(rs.len(), 1);
    assert_eq!(rs[0].title, "Only");
}

#[test]
fn extract_names_every_missing_step() {
    // build the page shape only down to a given depth; each stop names
    // the first missing part
    let chain = [
        "contents",
        "twoColumnSearchResultsRenderer",
        "primaryContents",
        "sectionListRenderer",
    ];
    let expected = [
        "contents (0) not found",
        "twoColumnSearchResultsRenderer not found",
        "primaryContents not found",
        "sectionListRenderer not found",
        "contents (1) not found",
    ];
    for depth in 0..5 {
        let mut tree = obj(vec![]);
        for key in chain.iter().take(depth).rev() {
            tree = obj(vec![(key, tree)]);
        }
        assert_eq!(extract_search_results(&tree).unwrap_err(), expected[depth]);
    }
    // an empty section list
    let mut tree = obj(vec![("contents", Json::Arr(vec![]))]);
    for key in chain.iter().rev() {
        tree = obj(vec![(key, tree)]);
    }
    assert_eq!(
        extract_search_results(&tree).unwrap_err(),
        "no elements in array"
    );
    // a section without an item renderer
    let mut tree = obj(vec![("contents", Json::Arr(vec![obj(vec![])]))]);
    for key in chain.iter().rev() {
        tree = obj(vec![(key, tree)]);
    }
    assert_eq!(
        extract_search_results(&tree).unwrap_err(),
        "itemSectionRenderer not found"
    );
    // an item section without contents, and one whose contents are not a
    // list
    let section = |inner: Json| {
        let mut tree = obj(vec![(
            "contents",
            Json::Arr(vec![obj(vec![("itemSectionRenderer", inner)])]),
        )]);
        for key in chain.iter().rev() {
            tree = obj(vec![(key, tree)]);
        }
        tree
    };
    assert_eq!(
        extract_search_results(&section(obj(vec![]))).unwrap_err(),
        "contents (2) not found"
    );
    assert_eq!(
        extract_search_results(&section(obj(vec![("contents", Json::Null)]))).unwrap_err(),
        "not an array (1)"
    );
}

#[test]
fn extract_names_the_missing_step() {
    let empty = obj(vec![]);
    assert_eq!(
        extract_search_results(&empty).unwrap_err(),
        "contents (0) not found"
    );
    let one_deep = obj(vec![("contents", obj(vec![]))]);
    assert_eq!(
        extract_search_results(&one_deep).unwrap_err(),
        "twoColumnSearchResultsRenderer not found"
    );
    let not_array = obj(vec![(
        "contents",
        obj(vec![(
            "twoColumnSearchResultsRenderer",
            obj(vec![(
                "primaryContents",
                obj(vec![(
                    "sectionListRenderer",
                    obj(vec![("contents", Json::Str("nope".to_string()))]),
                )]),
            )]),
        )]),
    )]);
    assert_eq!(
        extract_search_results(&not_array).unwrap_err(),
        "not an array (0)"
    );
}

#[test]
fn dims_parse_common_forms() {
    assert_eq!(parse_dims("1920x1080"), Ok((1920, 1080)));
    assert_eq!(parse_dims("80X24"), Ok((80, 24)));
    assert_eq!(parse_dims("10:20"), Ok((10, 20)));
    assert_eq!(parse_dims("7,9"), Ok((7, 9)));
    assert_eq!(parse_dims("+5,6"), Ok((5, 6)));
}

#[test]
fn dims_reject_malformed_input() {
    let failed = Err("Failed to parse dims".to_string());
    assert_eq!(parse_dims(""), failed);
    assert_eq!(parse_dims("80"), failed);
    assert_eq!(parse_dims("axb"), failed);
    assert_eq!(parse_dims("1x2x3"), failed);
    assert_eq!(parse_dims("x2"), failed);
    assert_eq!(parse_dims("2x"), failed);
    assert_eq!(parse_dims("4294967296x1"), failed);
    assert_eq!(parse_dims("-3x4"), failed);
}

#[test]
fn export_header_layout() {
    assert_eq!(
        export_header(30, 80, 24),
        "{\"framerate\":30,\"width\":80,\"height\":24}"
    );
    assert_eq!(
        export_header(0, 1, 4294967295),
        "{\"framerate\":0,\"width\":1,\"height\":4294967295}"
    );
}
