use axiotome::ai_engine::AIEngine;
use axiotome::commands::{ask_ai, get_pdf_page_count, search_books, select_pdf_file};
use axiotome::errors::CommandError;
use axiotome::text::{contains_str, split_lines};

#[test]
fn search_finds_substring_in_corpus() {
    let engine = AIEngine::new();
    let results = search_books(&engine, String::from("Rust")).unwrap();
    assert_eq!(results.len(), 1);
    assert_eq!(results[0].book_index, 0);
    assert_eq!(results[0].line_number, 0);
    assert_eq!(
        results[0].context,
        "Rustは安全性とパフォーマンスを両立したシステムプログラミング言語です。"
    );
}

#[test]
fn search_is_case_insensitive() {
    let engine = AIEngine::new();
    let results = search_books(&engine, String::from("rUsT")).unwrap();
    assert_eq!(results.len(), 1);
    assert_eq!(results[0].book_index, 0);
}

#[test]
fn search_absent_substring_returns_empty() {
    let engine = AIEngine::new();
    let results = search_books(&engine, String::from("quantum chromodynamics")).unwrap();
    assert!(results.is_empty());
}

#[test]
fn search_matches_every_corpus_entry_it_occurs_in() {
    let engine = AIEngine::new();
    let results = search_books(&engine, String::from("システム")).unwrap();
    assert_eq!(results.len(), 2);
    assert_eq!(results[0].book_index, 0);
    assert_eq!(results[0].line_number, 0);
    assert_eq!(results[1].book_index, 1);
    assert_eq!(results[1].line_number, 0);
}

#[test]
fn search_in_books_reports_line_numbers() {
    let engine = AIEngine::new();
    let texts = vec![
        String::from("the Fox\njumps over\nthe FOX den"),
        String::from("no match here"),
    ];
    let results = engine.search_in_books("fox", texts).unwrap();
    assert_eq!(results.len(), 2);
    assert_eq!(results[0].book_index, 0);
    assert_eq!(results[0].line_number, 0);
    assert_eq!(results[0].context, "the Fox");
    assert_eq!(results[1].book_index, 0);
    assert_eq!(results[1].line_number, 2);
    assert_eq!(results[1].context, "the FOX den");
}

#[test]
fn summarize_keeps_first_five_lines() {
    let engine = AIEngine::new();
    let text = "one\ntwo\nthree\nfour\nfive\nsix\nseven";
    assert_eq!(
        engine.summarize_text(text).unwrap(),
        "one\ntwo\nthree\nfour\nfive"
    );
}

#[test]
fn summarize_short_text_is_unchanged() {
    let engine = AIEngine::new();
    assert_eq!(engine.summarize_text("a\nb").unwrap(), "a\nb");
    assert_eq!(engine.summarize_text("").unwrap(), "");
}

#[test]
fn answer_question_embeds_the_question() {
    let engine = AIEngine::new();
    let out = engine.answer_question("これは何?", "context").unwrap();
    assert_eq!(
        out,
        "質問「これは何?」に関する情報:\n\nコンテキストから関連情報を検索中...\n(AI機能は今後拡張予定)"
    );
}

#[test]
fn ask_ai_uses_the_engine_template() {
    let engine = AIEngine::new();
    let out = ask_ai(&engine, String::from("Q"), String::from("C")).unwrap();
    assert!(out.starts_with("質問「Q」"));
}

#[test]
fn pdf_commands_are_not_implemented() {
    assert!(matches!(
        select_pdf_file(),
        Err(CommandError::NotImplemented)
    ));
    assert!(matches!(
        get_pdf_page_count(String::from("/books/x.pdf")),
        Err(CommandError::NotImplemented)
    ));
    assert_eq!(CommandError::NotImplemented.message(), "not implemented");
}

#[test]
fn split_lines_matches_std_lines() {
    for text in [
        "",
        "a",
        "a\nb",
        "a\n",
        "\n",
        "a\r\nb\r",
        "one\n\nthree\n",
    ] {
        let ours: Vec<String> = split_lines(text);
        let std_lines: Vec<String> = text.lines().map(String::from).collect();
        assert_eq!(ours, std_lines, "splitting {:?}", text);
    }
}

#[test]
fn contains_str_finds_substrings() {
    assert!(contains_str("hello world", "lo wo"));
    assert!(contains_str("hello", ""));
    assert!(contains_str("", ""));
    assert!(!contains_str("", "a"));
    assert!(!contains_str("hello", "world"));
    assert!(contains_str("abcabd", "abd"));
}
