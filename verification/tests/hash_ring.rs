use harbr_router::hash_ring::ConsistentHashRing;

#[test]
fn a_hash_belongs_to_the_next_point() {
    let mut ring = ConsistentHashRing::new(3);
    assert_eq!(ring.virtual_nodes(), 3);
    assert_eq!(ring.lookup(5), None);
    ring.lay_out(&vec![(100, 0), (200, 1), (300, 2)]);
    assert_eq!(ring.lookup(100), Some(0));
    assert_eq!(ring.lookup(101), Some(1));
    assert_eq!(ring.lookup(250), Some(2));
    assert_eq!(ring.lookup(301), Some(0));
    assert_eq!(ring.get_upstream("x"), ring.get_upstream("x"));
}

#[test]
fn only_the_keys_of_a_lost_server_move() {
    let mut ring = ConsistentHashRing::new(1);
    let all = vec![(100, 0), (200, 1), (300, 2), (400, 0), (500, 1)];
    ring.lay_out(&all);
    let before: Vec<Option<usize>> = (0..60).map(|h| ring.lookup(h * 10)).collect();
    let rest: Vec<(u64, usize)> = all.iter().filter(|p| p.1 != 1).cloned().collect();
    ring.lay_out(&rest);
    for h in 0..60u64 {
        let owner = before[h as usize];
        if owner != Some(1) {
            assert_eq!(ring.lookup(h * 10), owner);
        }
    }
}

#[test]
fn labels_lie_at_their_hashes() {
    let mut ring = ConsistentHashRing::new(1);
    let labels = vec![("a:0".to_string(), 0), ("b:0".to_string(), 1)];
    ring.lay_labels(&labels, &vec![500, 100]);
    assert_eq!(ring.lookup(50), Some(1));
    assert_eq!(ring.lookup(101), Some(0));
    assert_eq!(ring.lookup(501), Some(1));
}
