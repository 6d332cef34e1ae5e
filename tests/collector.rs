use parallel::collector::{Collector, Order};

fn run(order: Order, arrivals: &[(usize, &str)]) -> Vec<u8> {
    let mut c = Collector::new(order);
    let mut out = Vec::new();
    for (seq, text) in arrivals {
        for chunk in c.push(*seq, text.as_bytes().to_vec()) {
            out.extend_from_slice(&chunk);
        }
    }
    out
}

#[test]
fn input_order_matches_serial_run() {
    // jobs 0, 1, 2 on inputs "3", "1", "2": the shortest sleep finishes first.
    let serial = b"3\n1\n2\n".to_vec();
    let orders: [[usize; 3]; 6] = [[0, 1, 2], [0, 2, 1], [1, 0, 2], [1, 2, 0], [2, 0, 1], [2, 1, 0]];
    let texts = ["3\n", "1\n", "2\n"];
    for ord in orders.iter() {
        let arrivals: Vec<(usize, &str)> = ord.iter().map(|&s| (s, texts[s])).collect();
        assert_eq!(run(Order::InputOrder, &arrivals), serial);
    }
}

#[test]
fn input_order_holds_back_until_gap_fills() {
    let mut c = Collector::new(Order::InputOrder);
    assert!(c.push(2, b"c".to_vec()).is_empty());
    assert!(c.push(1, b"b".to_vec()).is_empty());
    assert_eq!(c.push(0, b"a".to_vec()), vec![b"a".to_vec(), b"b".to_vec(), b"c".to_vec()]);
    assert_eq!(c.push(3, b"d".to_vec()), vec![b"d".to_vec()]);
}

#[test]
fn as_completed_releases_at_once() {
    let arrivals = [(1usize, "1\n"), (2, "2\n"), (0, "3\n")];
    assert_eq!(run(Order::AsCompleted, &arrivals), b"1\n2\n3\n".to_vec());
}
