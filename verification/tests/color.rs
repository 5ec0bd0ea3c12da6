use slotted::color::{colors_of_mask, contains, same_colors, MASK_LEN};

#[test]
fn mask_lists_raised_flags_in_ascending_order() {
    let mut mask = [false; 256];
    mask[200] = true;
    mask[0] = true;
    mask[7] = true;
    assert_eq!(colors_of_mask(&mask), vec![0, 7, 200]);
}

#[test]
fn mask_without_flags_gives_no_colors() {
    let mask = [false; 256];
    assert_eq!(colors_of_mask(&mask), Vec::<i32>::new());
}

#[test]
fn full_mask_gives_every_color() {
    let mask = [true; 256];
    let colors = colors_of_mask(&mask);
    assert_eq!(colors.len(), MASK_LEN);
    assert_eq!(colors[0], 0);
    assert_eq!(colors[255], 255);
    for i in 0..256 {
        assert_eq!(colors[i], i as i32);
    }
}

#[test]
fn contains_finds_an_id() {
    let colors = vec![4, 1, 9];
    assert!(contains(&colors, 4));
    assert!(contains(&colors, 9));
    assert!(!contains(&colors, 2));
    assert!(!contains(&Vec::new(), 0));
}

#[test]
fn color_sets_compare_by_order() {
    assert!(same_colors(&vec![1, 2], &vec![1, 2]));
    assert!(!same_colors(&vec![1, 2], &vec![2, 1]));
    assert!(!same_colors(&vec![1, 2], &vec![1]));
    assert!(!same_colors(&vec![1], &vec![1, 2]));
    assert!(same_colors(&Vec::new(), &Vec::new()));
}
