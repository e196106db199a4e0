use git_credit::contributors::Contributor;
use git_credit::fuzzy::MAX_QUERY_CHARS;
use git_credit::picker::{Action, Key, Picker, View};

fn contributors() -> Vec<Contributor> {
    vec![
        Contributor {
            name: "Alice Example".to_owned(),
            email: "alice@example.com".to_owned(),
            commits: 10,
        },
        Contributor {
            name: "Bob Smith".to_owned(),
            email: "bob@example.com".to_owned(),
            commits: 5,
        },
        Contributor {
            name: "Carol Jones".to_owned(),
            email: "carol@work.test".to_owned(),
            commits: 2,
        },
    ]
}

fn type_character(picker: &mut Picker<'_>, character: char) {
    let action = picker.handle_key(Key::plain(character));
    assert_eq!(action, Action::Continue);
}

#[test]
fn fuzzy_filters_names_and_emails() {
    let contributors = contributors();
    let mut picker = Picker::new(&contributors);

    for character in "work".chars() {
        type_character(&mut picker, character);
    }

    assert_eq!(picker.matches, vec![2]);
}

#[test]
fn clearing_the_query_restores_default_order() {
    let contributors = contributors();
    let mut picker = Picker::new(&contributors);
    type_character(&mut picker, 'b');

    picker.query.clear();
    picker.refilter();

    assert_eq!(picker.matches, vec![0, 1, 2]);
}

#[test]
fn selections_survive_filter_changes() {
    let contributors = contributors();
    let mut picker = Picker::new(&contributors);
    picker.toggle_selected();

    for character in "work".chars() {
        type_character(&mut picker, character);
    }
    picker.toggle_selected();

    assert_eq!(picker.selected.into_iter().collect::<Vec<_>>(), vec![0, 2]);
}

#[test]
fn enter_with_selections_opens_confirmation() {
    let contributors = contributors();
    let mut picker = Picker::new(&contributors);
    picker.toggle_selected();

    let action = picker.handle_key(Key::Enter);

    assert_eq!(action, Action::Continue);
    assert_eq!(picker.view, View::Confirmation);
}

#[test]
fn escape_from_confirmation_returns_to_picker() {
    let contributors = contributors();
    let mut picker = Picker::new(&contributors);
    picker.view = View::Confirmation;

    let action = picker.handle_key(Key::Esc);

    assert_eq!(action, Action::Continue);
    assert_eq!(picker.view, View::Picker);
}

#[test]
fn enter_on_confirmation_confirms_the_selection() {
    let contributors = contributors();
    let mut picker = Picker::new(&contributors);
    picker.toggle_selected();
    picker.view = View::Confirmation;

    let action = picker.handle_key(Key::Enter);

    assert_eq!(action, Action::Confirm);
    assert_eq!(picker.selected_contributors(), vec![&contributors[0]]);
}

#[test]
fn escape_cancels() {
    let contributors = contributors();
    let mut picker = Picker::new(&contributors);

    let action = picker.handle_key(Key::Esc);

    assert_eq!(action, Action::Cancel);
}

#[test]
fn cursor_is_clamped_and_resets_after_filtering() {
    let contributors = contributors();
    let mut picker = Picker::new(&contributors);

    picker.move_down();
    picker.move_down();
    picker.move_down();
    assert_eq!(picker.cursor, 2);

    picker.move_up();
    assert_eq!(picker.cursor, 1);

    type_character(&mut picker, 'a');
    assert_eq!(picker.cursor, 0);
}

#[test]
fn enter_without_selection_confirms_at_once() {
    let contributors = contributors();
    let mut picker = Picker::new(&contributors);

    assert_eq!(picker.handle_key(Key::Enter), Action::Confirm);
    assert_eq!(picker.view, View::Picker);
    assert!(picker.selected_contributors().is_empty());
}

#[test]
fn toggling_twice_restores_the_selection() {
    let contributors = contributors();
    let mut picker = Picker::new(&contributors);
    picker.move_down();
    picker.toggle_selected();
    assert_eq!(picker.selected_indices(), vec![1]);
    picker.toggle_selected();
    assert!(picker.selected_indices().is_empty());
}

#[test]
fn space_toggles_and_modified_characters_do_nothing() {
    let contributors = contributors();
    let mut picker = Picker::new(&contributors);

    assert_eq!(picker.handle_key(Key::plain(' ')), Action::Continue);
    assert_eq!(picker.selected_indices(), vec![0]);
    assert!(picker.query.is_empty());

    let control_b = Key::Char { character: 'b', control: true, alt: false, super_key: false };
    assert_eq!(picker.handle_key(control_b), Action::Continue);
    assert!(picker.query.is_empty());
    assert_eq!(picker.matches, vec![0, 1, 2]);
}

#[test]
fn backspace_shortens_the_query_and_refilters() {
    let contributors = contributors();
    let mut picker = Picker::new(&contributors);
    for character in "work".chars() {
        type_character(&mut picker, character);
    }
    for _ in 0..4 {
        assert_eq!(picker.handle_key(Key::Backspace), Action::Continue);
    }
    assert!(picker.query.is_empty());
    assert_eq!(picker.matches, vec![0, 1, 2]);
    assert_eq!(picker.handle_key(Key::Backspace), Action::Continue);
    assert_eq!(picker.matches, vec![0, 1, 2]);
}

#[test]
fn nothing_matches_an_unknown_query_and_toggling_then_does_nothing() {
    let contributors = contributors();
    let mut picker = Picker::new(&contributors);
    for character in "zzzz".chars() {
        type_character(&mut picker, character);
    }
    assert!(picker.matches.is_empty());
    assert_eq!(picker.cursor, 0);
    picker.toggle_selected();
    picker.move_down();
    assert!(picker.selected_indices().is_empty());
    assert_eq!(picker.cursor, 0);
}

#[test]
fn other_keys_in_confirmation_keep_it_open() {
    let contributors = contributors();
    let mut picker = Picker::new(&contributors);
    picker.toggle_selected();
    assert_eq!(picker.handle_key(Key::Enter), Action::Continue);
    assert_eq!(picker.handle_key(Key::Up), Action::Continue);
    assert_eq!(picker.handle_key(Key::plain('x')), Action::Continue);
    assert_eq!(picker.view, View::Confirmation);
    assert!(picker.query.is_empty());
}

#[test]
fn matches_never_repeat() {
    let contributors = contributors();
    let mut picker = Picker::new(&contributors);
    for key in [Key::plain('e'), Key::plain('x'), Key::Backspace, Key::Down, Key::plain(' '), Key::Backspace] {
        picker.handle_key(key);
        let mut seen = picker.matches.clone();
        seen.sort();
        seen.dedup();
        assert_eq!(seen.len(), picker.matches.len());
        assert!(picker.matches.iter().all(|index| *index < contributors.len()));
    }
}

#[test]
fn characters_past_the_longest_query_are_ignored() {
    let contributors = contributors();
    let mut picker = Picker::new(&contributors);
    for _ in 0..MAX_QUERY_CHARS {
        type_character(&mut picker, 'a');
    }
    assert_eq!(picker.query.chars().count(), MAX_QUERY_CHARS);
    assert!(picker.matches.is_empty());
    type_character(&mut picker, 'a');
    assert_eq!(picker.query.chars().count(), MAX_QUERY_CHARS);
    picker.handle_key(Key::Backspace);
    assert_eq!(picker.query.chars().count(), MAX_QUERY_CHARS - 1);
}
