use worker_pool::art::{mix, PrimaryColor, SecondaryColor};
use worker_pool::blog::Post;
use worker_pool::restaurant::{add_to_waitlist, eat_at_restaurant, Appetizer, Breakfast};
use worker_pool::staged_blog;

#[test]
fn post_shows_its_text_after_two_approvals() {
    let mut post = Post::new();

    post.add_text("I ate a salad for lunch today");
    assert_eq!("", post.content());

    post.request_review();
    assert_eq!("", post.content());

    post.add_text("This should not appear");

    post.reject();
    assert_eq!("", post.content());

    post.request_review();
    assert_eq!("", post.content());

    post.approve();
    post.approve();
    assert_eq!("I ate a salad for lunch today", post.content());
}

#[test]
fn one_approval_does_not_publish() {
    let mut post = Post::new();
    post.add_text("draft");
    post.approve();
    assert_eq!("", post.content());
    post.request_review();
    post.approve();
    assert_eq!("", post.content());
    post.reject();
    post.request_review();
    post.approve();
    assert_eq!("", post.content());
    post.approve();
    assert_eq!("draft", post.content());
}

#[test]
fn published_post_is_final() {
    let mut post = Post::new();
    post.add_text("a");
    post.add_text("b");
    post.request_review();
    post.request_review();
    post.approve();
    post.approve();
    post.reject();
    post.request_review();
    post.add_text("c");
    post.approve();
    assert_eq!("ab", post.content());
}

#[test]
fn staged_post_is_published_by_two_approvals() {
    let mut post = staged_blog::Post::new();

    post.add_text("I ate a salad for lunch today");

    let post = post.request_review();

    let post = post.approve();

    let post = post.approve();

    assert_eq!("I ate a salad for lunch today", post.content());
}

#[test]
fn staged_post_keeps_its_text_through_rejection() {
    let mut draft = staged_blog::Post::new();
    draft.add_text("one");
    let mut draft = draft.request_review().reject();
    draft.add_text(" two");
    let mut draft = draft.request_review().approve().reject();
    draft.add_text(" three");
    let post = draft.request_review().approve().approve();
    assert_eq!("one two three", post.content());
}

#[test]
fn any_two_colors_mix_to_orange() {
    assert_eq!(mix(PrimaryColor::Red, PrimaryColor::Yellow), SecondaryColor::Orange);
    assert_eq!(mix(PrimaryColor::Blue, PrimaryColor::Blue), SecondaryColor::Orange);
}

#[test]
fn summer_breakfast_comes_with_peaches() {
    let mut breakfast = Breakfast::summer("Rye");
    assert_eq!(breakfast.toast, "Rye");
    assert_eq!(breakfast.seasonal_fruit(), "Peaches");
    breakfast.toast = String::from("Wheat");
    assert_eq!(breakfast.toast, "Wheat");
    assert_eq!(breakfast.seasonal_fruit(), "Peaches");
    assert_ne!(Appetizer::Salad, Appetizer::Soup);
    add_to_waitlist();
    eat_at_restaurant();
}
