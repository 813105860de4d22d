use bird_routes::greet::hello_bird;
use bird_routes::greet::seek_redirect;

#[test]
fn hello_bird_greets() {
    let r = hello_bird();
    assert_eq!(r.status, 200);
    assert_eq!(r.body, "Hello, bird!");
    assert_eq!(r.location, None);
}

#[test]
fn seek_redirect_points_at_the_video() {
    let r = seek_redirect();
    assert_eq!(r.status, 302);
    assert_eq!(
        r.location,
        Some(String::from("https://www.youtube.com/watch?v=9Gc4QTqslN4"))
    );
    assert_eq!(r.body, "");
}
