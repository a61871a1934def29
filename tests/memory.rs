use cogno::memory::Memory;

#[test]
fn learns_name_from_prompt() {
    let mut m = Memory::new();
    m.learn_from_prompt("Hello, My Name Is alice, nice to meet you");
    assert_eq!(m.user_profile.name.as_deref(), Some("Alice"));
    m.learn_from_prompt("my name is bob");
    assert_eq!(m.user_profile.name.as_deref(), Some("Alice"));
}

#[test]
fn name_stops_at_separator_and_skips_spaces() {
    let mut m = Memory::new();
    m.learn_from_prompt("well my name is   zoë. and yours?");
    assert_eq!(m.user_profile.name.as_deref(), Some("Zoë"));
}

#[test]
fn no_phrase_or_no_name_learns_nothing() {
    let mut m = Memory::new();
    m.learn_from_prompt("call me ishmael");
    assert!(m.user_profile.name.is_none());
    m.learn_from_prompt("my name is ");
    assert!(m.user_profile.name.is_none());
    m.learn_from_prompt("my name is, well");
    assert!(m.user_profile.name.is_none());
}

#[test]
fn milestones_keep_last_twenty() {
    let mut m = Memory::new();
    for i in 0..23 {
        m.record_milestone(format!("m{}", i));
    }
    assert_eq!(m.emotional_milestones.len(), 20);
    assert_eq!(m.emotional_milestones[0], "m3");
}
