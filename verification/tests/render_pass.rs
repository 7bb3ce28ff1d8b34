use antigen::render_pass::{pass_draw_order, passes_to_draw};

#[test]
fn passes_drawn_by_order_number() {
    assert_eq!(pass_draw_order(&vec![3, 1, 2]), vec![1, 2, 0]);
    assert_eq!(pass_draw_order(&vec![]), Vec::<usize>::new());
}

#[test]
fn passes_with_equal_numbers_keep_their_listing() {
    assert_eq!(pass_draw_order(&vec![2, 0, 2, 0, 1]), vec![1, 3, 4, 0, 2]);
}

#[test]
fn drawing_stops_at_the_first_pass_not_ready() {
    let (order, drawn) = passes_to_draw(&vec![5, 0, 3], &vec![true, true, false]);
    assert_eq!(order, vec![1, 2, 0]);
    assert_eq!(drawn, 1);
    let (_, drawn) = passes_to_draw(&vec![5, 0, 3], &vec![true, true, true]);
    assert_eq!(drawn, 3);
    let (_, drawn) = passes_to_draw(&vec![5, 0, 3], &vec![true, false, true]);
    assert_eq!(drawn, 0);
}
