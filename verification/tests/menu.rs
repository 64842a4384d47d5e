use e621_downloader::menu::{
    choice_menu, dec, enter_step, finish, inc, key_step, print_plan, row_colour, row_text, set_choice,
    set_printed, start, submenu_done, window, Colour, ItemKind, Key, Menu, MenuAction, MenuItem, PrintPlan,
    PrintState,
};

fn item(name: &str, kind: ItemKind) -> MenuItem {
    MenuItem { name: name.to_string(), colour: Colour::Reset, kind }
}

fn menu(items: Vec<MenuItem>, selected: usize) -> Menu {
    let mut m = Menu {
        name: Some("main".to_string()),
        items,
        selected,
        active: false,
        exited: false,
        canceled: false,
        exit: None,
        longest_name: 0,
        printed: PrintState::Unprinted,
    };
    start(&mut m);
    m
}

fn sample() -> Menu {
    menu(
        vec![
            item("title", ItemKind::Label),
            item("go", ItemKind::Button),
            item("mode", ItemKind::List { values: vec!["a".to_string(), "bb".to_string()], selected: 0 }),
            item("pick", ItemKind::Scroll { values: vec!["x".to_string(), "y".to_string()], selected: 1 }),
            item("name", ItemKind::Text { value: "old".to_string(), allow_empty: false }),
            item("back", ItemKind::BackButton),
        ],
        1,
    )
}

#[test]
fn window_centres_the_selection() {
    assert_eq!(window(0, 10, 3), None);
    assert_eq!(window(0, 10, 20), Some((0, 10)));
    assert_eq!(window(1, 100, 13), Some((0, 10)));
    assert_eq!(window(50, 100, 13), Some((45, 10)));
    assert_eq!(window(98, 100, 13), Some((90, 10)));
}

#[test]
fn rows_show_name_padding_and_value() {
    let m = sample();
    assert_eq!(m.longest_name, 5);
    assert_eq!(row_text(&m, 1), "> go        ");
    assert_eq!(row_text(&m, 2), "  mode      [a] bb ");
    assert_eq!(row_text(&m, 3), "  pick       y");
    assert_eq!(row_text(&m, 4), "  name       old");
    assert_eq!(row_text(&m, 0), "  title     ");
}

#[test]
fn selection_skips_labels_and_wraps() {
    let m = sample();
    assert_eq!(inc(&m, 5), 1);
    assert_eq!(dec(&m, 1), 5);
    assert_eq!(inc(&m, 1), 2);
}

#[test]
fn keys_move_and_step() {
    let mut m = sample();
    assert_eq!(key_step(&mut m, Key::Up), MenuAction::Redraw);
    assert_eq!(m.selected, 5);
    assert_eq!(key_step(&mut m, Key::Char('j')), MenuAction::Redraw);
    assert_eq!(m.selected, 1);
    key_step(&mut m, Key::Down);
    assert_eq!(key_step(&mut m, Key::Right), MenuAction::Redraw);
    assert!(matches!(m.items[2].kind, ItemKind::List { selected: 1, .. }));
    key_step(&mut m, Key::Right);
    assert!(matches!(m.items[2].kind, ItemKind::List { selected: 0, .. }));
    key_step(&mut m, Key::Char('a'));
    assert!(matches!(m.items[2].kind, ItemKind::List { selected: 1, .. }));
    assert_eq!(key_step(&mut m, Key::Enter), MenuAction::Enter);
    assert_eq!(key_step(&mut m, Key::Other), MenuAction::Nothing);
    assert_eq!(key_step(&mut m, Key::Escape), MenuAction::Exit);
    assert!(!m.active && m.canceled);
    assert_eq!(m.exit, Some("main".to_string()));
}

#[test]
fn enter_on_each_kind() {
    let mut m = sample();
    m.selected = 4;
    assert_eq!(enter_step(&mut m, "   "), MenuAction::Redraw);
    assert!(matches!(&m.items[4].kind, ItemKind::Text { value, .. } if value == "old"));
    assert_eq!(enter_step(&mut m, "  new name \n"), MenuAction::Redraw);
    assert!(matches!(&m.items[4].kind, ItemKind::Text { value, .. } if value == "new name"));
    m.selected = 2;
    assert_eq!(enter_step(&mut m, ""), MenuAction::OpenChoice);
    let choices = choice_menu(&vec!["a".to_string(), "bb".to_string()], 0);
    assert_eq!(choices.items.len(), 2);
    assert!(matches!(choices.items[1].kind, ItemKind::BackButton));
    set_choice(&mut m, 1);
    assert!(matches!(m.items[2].kind, ItemKind::List { selected: 1, .. }));
    m.selected = 1;
    assert_eq!(enter_step(&mut m, ""), MenuAction::Exit);
    assert!(!m.active);
    assert_eq!(m.exit, Some("main".to_string()));
    let mut m = sample();
    m.selected = 5;
    assert_eq!(enter_step(&mut m, ""), MenuAction::Exit);
    assert_eq!(m.exit, None);
}

#[test]
fn submenus_pass_their_exit_on() {
    let mut m = sample();
    assert!(!submenu_done(&mut m, None, false));
    assert!(m.active);
    assert!(submenu_done(&mut m, Some("sub".to_string()), true));
    assert!(!m.active && m.canceled);
    assert_eq!(m.exit, Some("sub".to_string()));
}

#[test]
fn selected_row_is_cyan_others_keep_their_colour() {
    let mut m = sample();
    m.items[2].colour = Colour::Red;
    m.items[1].colour = Colour::Rgb { r: 1, g: 2, b: 3 };
    assert_eq!(row_colour(&m, 1), Colour::Cyan);
    assert_eq!(row_colour(&m, 2), Colour::Red);
    assert_eq!(row_colour(&m, 0), Colour::Reset);
    m.selected = 2;
    assert_eq!(row_colour(&m, 2), Colour::Cyan);
    assert_eq!(row_colour(&m, 1), Colour::Rgb { r: 1, g: 2, b: 3 });
}

#[test]
fn choice_menu_marks_the_current_value_green() {
    let values = vec!["a".to_string(), "bb".to_string(), "c".to_string()];
    let choices = choice_menu(&values, 1);
    assert_eq!(choices.selected, 1);
    assert_eq!(choices.items[0].colour, Colour::Reset);
    assert_eq!(choices.items[1].colour, Colour::Green);
    assert_eq!(choices.items[2].colour, Colour::Reset);
    assert_eq!(choices.items[1].name, "bb");
    assert!(choices.name.is_none() && !choices.active && !choices.canceled);
}

#[test]
fn keys_on_a_menu_of_labels() {
    let mut m = menu(vec![item("one", ItemKind::Label), item("two", ItemKind::Label)], 0);
    assert_eq!(key_step(&mut m, Key::Left), MenuAction::Nothing);
    assert_eq!(key_step(&mut m, Key::Right), MenuAction::Nothing);
    assert_eq!(key_step(&mut m, Key::Char('d')), MenuAction::Nothing);
    assert_eq!(key_step(&mut m, Key::Enter), MenuAction::Enter);
    assert_eq!(enter_step(&mut m, ""), MenuAction::Nothing);
    assert!(m.active && !m.canceled && !m.exited);
    assert_eq!(m.selected, 0);
    assert_eq!(key_step(&mut m, Key::Char('q')), MenuAction::Exit);
    assert!(!m.active && m.canceled);
    assert_eq!(m.exit, Some("main".to_string()));
}

#[test]
fn moving_does_not_close_or_cancel() {
    let mut m = sample();
    for key in [Key::Up, Key::Down, Key::Char('w'), Key::Char('s'), Key::Left, Key::Right] {
        key_step(&mut m, key);
        assert!(m.active && !m.canceled && !m.exited);
        assert_eq!(m.exit, None);
    }
}

#[test]
fn button_exit_is_not_canceled() {
    let mut m = sample();
    assert_eq!(enter_step(&mut m, ""), MenuAction::Exit);
    assert!(!m.active && !m.canceled);
    finish(&mut m);
    assert!(m.exited);
    assert_eq!(m.printed, PrintState::Unprinted);
}

#[test]
fn drawing_plans() {
    let mut m = sample();
    assert_eq!(print_plan(&m, 40, false), PrintPlan::Small);
    assert_eq!(print_plan(&m, 7, false), PrintPlan::Big);
    assert_eq!(print_plan(&m, 8, false), PrintPlan::Small);
    assert_eq!(print_plan(&m, 40, true), PrintPlan::Big);
    assert_eq!(print_plan(&m, 0, false), PrintPlan::Big);
    set_printed(&mut m, PrintState::Small);
    assert_eq!(print_plan(&m, 40, false), PrintPlan::Keep);
    set_printed(&mut m, PrintState::Big);
    assert_eq!(print_plan(&m, 40, false), PrintPlan::Big);
    finish(&mut m);
    assert_eq!(print_plan(&m, 40, false), PrintPlan::Small);
}

#[test]
fn stepping_back_undoes_stepping_on() {
    let mut m = sample();
    m.selected = 3;
    key_step(&mut m, Key::Right);
    assert!(matches!(m.items[3].kind, ItemKind::Scroll { selected: 0, .. }));
    key_step(&mut m, Key::Left);
    assert!(matches!(m.items[3].kind, ItemKind::Scroll { selected: 1, .. }));
    key_step(&mut m, Key::Left);
    key_step(&mut m, Key::Right);
    assert!(matches!(m.items[3].kind, ItemKind::Scroll { selected: 1, .. }));
}
