use bracket_terminal::dummy::main_loop;

#[test]
fn dummy_main_loop_returns_at_once() {
    main_loop(5u32, "state");
}
