use tuxparty::board::Board;

#[test]
fn default_board_has_thirty_spaces() {
    let b = Board::get_default_board();
    assert_eq!(b.spaces.len(), 30);
}

#[test]
fn default_board_ids_match_indices() {
    let b = Board::get_default_board();
    for (i, s) in b.spaces.iter().enumerate() {
        assert_eq!(s.id, i);
    }
}

#[test]
fn get_space_finds_every_id() {
    let b = Board::get_default_board();
    for id in 0..30 {
        let s = b.get_space(id).expect("space must resolve");
        assert_eq!(s.id, id);
    }
}

#[test]
fn get_space_rejects_unknown_id() {
    let b = Board::get_default_board();
    assert!(b.get_space(30).is_none());
    assert!(b.get_space(999).is_none());
}

#[test]
fn every_transition_destination_resolves() {
    let b = Board::get_default_board();
    for s in &b.spaces {
        for t in &s.transitions {
            assert!(b.get_space(t.to).is_some());
        }
    }
}

#[test]
fn every_space_reachable_from_start() {
    let b = Board::get_default_board();
    assert!(b.check_all_reachable(0));
}

#[test]
fn branch_points_have_two_exits() {
    let b = Board::get_default_board();
    let s2 = b.get_space(2).unwrap();
    assert_eq!(s2.transitions.len(), 2);
    let s20 = b.get_space(20).unwrap();
    assert_eq!(s20.transitions.len(), 2);
}
