use memprims::strsplit::StrSplit;
use memprims::strsplit::until_char;

fn collect_pieces<D: memprims::strsplit::Delimiter>(haystack: &str, delimiter: D) -> Vec<&str> {
    let mut split = StrSplit::new(haystack, delimiter);
    let mut pieces = Vec::new();
    while let Some(piece) = split.next() {
        pieces.push(piece);
    }
    pieces
}

#[test]
fn it_works() {
    let haystack = "a b c d e f";
    let letters: Vec<_> = collect_pieces(haystack, " ");
    assert_eq!(letters, vec!["a", "b", "c", "d", "e", "f"]);
}

#[test]
fn lib_tail() {
    let haystack = "a b c d e ";
    let letters: Vec<_> = collect_pieces(haystack, " ");
    assert_eq!(letters, vec!["a", "b", "c", "d", "e", ""]);
}

#[test]
fn until_char_test() {
    assert_eq!(until_char("Hello", 'l'), "He");
}

#[test]
fn until_char_no_match() {
    assert_eq!(until_char("Hello", 'z'), "Hello");
}

#[test]
fn no_delimiter_yields_whole() {
    let letters: Vec<_> = collect_pieces("abc", " ");
    assert_eq!(letters, vec!["abc"]);
}

#[test]
fn leading_delimiter_yields_empty_first() {
    let letters: Vec<_> = collect_pieces(" x", " ");
    assert_eq!(letters, vec!["", "x"]);
}

#[test]
fn multi_character_delimiter() {
    let letters: Vec<_> = collect_pieces("one::two::three", "::");
    assert_eq!(letters, vec!["one", "two", "three"]);
}

#[test]
fn char_delimiter_pieces() {
    let letters: Vec<_> = collect_pieces("a,b,,c", ',');
    assert_eq!(letters, vec!["a", "b", "", "c"]);
}
