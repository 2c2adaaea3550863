use ytdlp_bridge::greet;

#[test]
fn greet_names_the_guest() {
    assert_eq!(greet("World"), "Hello, World! You've been greeted from Rust!");
}

#[test]
fn greet_takes_any_name() {
    assert_eq!(greet(""), "Hello, ! You've been greeted from Rust!");
    assert_eq!(greet("Zoë 🙂"), "Hello, Zoë 🙂! You've been greeted from Rust!");
    assert_eq!(greet("{}"), "Hello, {}! You've been greeted from Rust!");
}
