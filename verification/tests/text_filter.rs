use xiaozhi_server::text_filter::TtsTextFilter;

#[test]
fn removes_markdown_and_emoji() {
    let mut filter = TtsTextFilter::default();
    assert_eq!(
        filter.filter_chunk("**你好**，这是 `Rust` ~~服务~~ 😊"),
        "你好，这是 Rust 服务 "
    );
}

#[test]
fn removes_parenthesized_stage_directions_across_chunks() {
    let mut filter = TtsTextFilter::default();
    assert_eq!(filter.filter_chunk("你好（突然"), "你好");
    assert_eq!(filter.filter_chunk("小声）世界"), "世界");
}

#[test]
fn removes_markdown_heading_quote_and_link_text() {
    let mut filter = TtsTextFilter::default();
    assert_eq!(
        filter.filter_chunk("## 标题\n> 引用\n请看[链接](url)"),
        "标题\n引用\n请看"
    );
}

#[test]
fn preserves_literal_hash_and_gt_when_not_markdown_prefixes() {
    let mut filter = TtsTextFilter::default();
    assert_eq!(filter.filter_chunk("C# 和 1>0"), "C# 和 1>0");
}

#[test]
fn hashes_without_a_heading_come_out() {
    let mut filter = TtsTextFilter::default();
    assert_eq!(filter.filter_chunk("##"), "");
    assert_eq!(filter.filter_chunk("x"), "##x");
    let mut filter = TtsTextFilter::default();
    assert_eq!(filter.filter_chunk("####### x"), "######x");
    let mut filter = TtsTextFilter::default();
    assert_eq!(filter.filter_chunk("#>a"), "#>a");
}

#[test]
fn the_end_brings_out_what_was_pending() {
    let mut filter = TtsTextFilter::default();
    filter.filter_chunk("###");
    assert_eq!(filter.finish(), "###");
    assert_eq!(filter.finish(), "");
    let mut filter = TtsTextFilter::default();
    filter.filter_chunk(">");
    assert_eq!(filter.finish(), ">");
}

#[test]
fn pieces_of_a_text_keep_what_the_whole_keeps() {
    let text = "# 一\n> 二（三(四)五）六[七【八】]九] ) *十* 😊\n###x>y";
    let mut filter = TtsTextFilter::default();
    let expected = filter.filter_chunk(text);
    let chars: Vec<char> = text.chars().collect();
    for cut in 0..=chars.len() {
        let a: String = chars[..cut].iter().collect();
        let b: String = chars[cut..].iter().collect();
        let mut filter = TtsTextFilter::default();
        let mut kept = filter.filter_chunk(&a);
        kept.push_str(&filter.filter_chunk(&b));
        assert_eq!(kept, expected, "cut at {cut}");
    }
    for c in expected.chars() {
        assert!(!"(（[【*_`~|😊".contains(c));
    }
}

#[test]
fn plain_text_is_kept() {
    let text = "一二三，abc 123。\n再见！";
    let mut filter = TtsTextFilter::default();
    assert_eq!(filter.filter_chunk(text), text);
}

#[test]
fn blank_pieces_are_not_passed_on() {
    let mut filter = TtsTextFilter::default();
    assert_eq!(filter.stream_chunk("**你好**").as_deref(), Some("你好"));
    assert_eq!(filter.stream_chunk(" *\t* "), None);
    assert_eq!(filter.stream_chunk("\n#"), None);
    assert_eq!(filter.stream_end().as_deref(), Some("#"));
    assert_eq!(filter.stream_end(), None);
}

#[test]
fn brackets_are_not_spoken_however_they_are_cut() {
    for text in ["（小声）", "(a(b)c)", "[图片]", "【一[二(三]】", "(a[b)", "()"] {
        let mut filter = TtsTextFilter::default();
        assert_eq!(filter.filter_chunk(text), "", "{text}");
        assert_eq!(filter.filter_chunk("好"), "好", "{text}");

        let chars: Vec<char> = text.chars().collect();
        for cut in 0..=chars.len() {
            let a: String = chars[..cut].iter().collect();
            let b: String = chars[cut..].iter().collect();
            let mut filter = TtsTextFilter::default();
            assert_eq!(filter.filter_chunk(&a), "", "{text} cut at {cut}");
            assert_eq!(filter.filter_chunk(&b), "", "{text} cut at {cut}");
            assert_eq!(filter.filter_chunk("好"), "好", "{text} cut at {cut}");
        }
    }
}

#[test]
fn line_marks_are_not_spoken() {
    for mark in ["# ", "## ", "###### ", "> ", ">\t", "#\n"] {
        let mut filter = TtsTextFilter::default();
        for c in mark.chars() {
            assert_eq!(filter.filter_chunk(&c.to_string()), "", "{mark}");
        }
        assert_eq!(filter.filter_chunk("题#1>0\n"), "题#1>0\n", "{mark}");
        assert_eq!(filter.filter_chunk(mark), "", "{mark}");
        assert_eq!(filter.finish(), "");
    }
}

#[test]
fn pieces_of_a_stream_are_filtered_alike() {
    let mut filter = TtsTextFilter::default();
    let mut other = TtsTextFilter::default();
    for piece in ["# 一", "（a", "b）", " * ", "二>", "\n> ", "三"] {
        assert_eq!(filter.try_stream_chunk(piece), Ok(other.stream_chunk(piece)));
    }
    assert_eq!(filter.try_stream_chunk("（"), Ok(None));
    assert_eq!(filter.try_stream_chunk("）好"), Ok(Some("好".to_string())));
}
