use kernel::task::stack::{find_free_space, free_index};

#[test]
fn create_stack() {
    let mut stacks: Vec<u8> = Vec::new();
    assert_eq!(find_free_space(&mut stacks), 0);
    assert_eq!(find_free_space(&mut stacks), 1);
    assert_eq!(find_free_space(&mut stacks), 2);
    assert_eq!(find_free_space(&mut stacks), 3);
    assert_eq!(find_free_space(&mut stacks), 4);
    assert_eq!(find_free_space(&mut stacks), 5);
    assert_eq!(find_free_space(&mut stacks), 6);
    assert_eq!(find_free_space(&mut stacks), 7);
    stacks[0] = 0xbf;
    assert_eq!(find_free_space(&mut stacks), 6);
    assert_eq!(find_free_space(&mut stacks), 8);
}

#[test]
fn free_allocated_stack() {
    let mut stacks: Vec<u8> = Vec::new();
    assert_eq!(find_free_space(&mut stacks), 0);
    assert_eq!(find_free_space(&mut stacks), 1);
    assert_eq!(find_free_space(&mut stacks), 2);
    assert_eq!(find_free_space(&mut stacks), 3);
    free_index(&mut stacks, 1);
    assert_eq!(find_free_space(&mut stacks), 1);
}
