use bullet::listing::{bullet_style, BulletStyle};
use bullet::storage::{Entry, Priority, State};
use bullet::text::{decimal_text, normalize};

#[test]
fn styles() {
    let e = Entry { text: "x".to_string(), state: State::Discarded, priority: Priority::Keter };
    assert_eq!(bullet_style(&e), BulletStyle { state_muted: true, alarming: true });
    let e = Entry { text: "x".to_string(), state: State::Active, priority: Priority::Safe };
    assert_eq!(bullet_style(&e), BulletStyle { state_muted: false, alarming: false });
    let e = Entry { text: "x".to_string(), state: State::Completed, priority: Priority::Euclid };
    assert_eq!(bullet_style(&e), BulletStyle { state_muted: false, alarming: false });
}

#[test]
fn decimal_numbers() {
    assert_eq!(decimal_text(0), "0");
    assert_eq!(decimal_text(7), "7");
    assert_eq!(decimal_text(10), "10");
    assert_eq!(decimal_text(305), "305");
    assert_eq!(decimal_text(u32::MAX), u32::MAX.to_string());
}

#[test]
fn normalize_lowercases_then_trims() {
    assert_eq!(normalize("  HeLLo World \n"), "hello world");
    assert_eq!(normalize(""), "");
    assert_eq!(normalize(" \t "), "");
    assert_eq!(normalize("ÉCOLE"), "école");
}
