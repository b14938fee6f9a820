use bounty::listing::{render_listing, DirectoryEntry};

const OPENING: &str = "<!DOCTYPE html><html><head><meta charset=\"utf-8\"></head><body>";

fn entry(name: &str, is_directory: bool) -> DirectoryEntry {
    DirectoryEntry { name: name.to_string(), is_directory }
}

#[test]
fn listing_of_a_file_and_a_directory() {
    let page = render_listing("/srv/www", &vec![entry("a.txt", false), entry("b", true)]);
    assert_eq!(
        page,
        format!(
            "{}<h1>Directory listing for /srv/www</h1><a href=\"a%2Etxt\">a.txt</a><br><a href=\"b/\">b/</a><br></body></html>",
            OPENING
        )
    );
}

#[test]
fn listing_of_an_empty_directory() {
    let page = render_listing("/srv/www/empty", &Vec::new());
    assert_eq!(
        page,
        format!("{}<h1>Directory listing for /srv/www/empty</h1></body></html>", OPENING)
    );
}

#[test]
fn listing_declares_utf8() {
    let page = render_listing("/", &Vec::new());
    assert!(page.starts_with("<!DOCTYPE html><html><head><meta charset=\"utf-8\"></head><body>"));
    assert!(page.ends_with("</body></html>"));
}

#[test]
fn links_are_encoded_and_labels_are_not() {
    let page = render_listing("/srv", &vec![entry("my file.txt", false), entry("日本", true)]);
    assert!(page.contains("<a href=\"my%20file%2Etxt\">my file.txt</a><br>"));
    assert!(page.contains("<a href=\"%E6%97%A5%E6%9C%AC/\">日本/</a><br>"));
}

#[test]
fn heading_shows_the_decoded_path() {
    let page = render_listing("/srv/www/a%20b", &Vec::new());
    assert!(page.contains("<h1>Directory listing for /srv/www/a b</h1>"));
}

#[test]
fn entries_keep_their_order() {
    let page = render_listing("/d", &vec![entry("z", false), entry("a", false), entry("m", true)]);
    let z = page.find("href=\"z\"").unwrap();
    let a = page.find("href=\"a\"").unwrap();
    let m = page.find("href=\"m/\"").unwrap();
    assert!(z < a && a < m);
}

#[test]
fn rendering_twice_gives_the_same_page() {
    let entries = vec![entry("a.txt", false), entry("b", true)];
    assert_eq!(render_listing("/srv/www", &entries), render_listing("/srv/www", &entries));
}
