use blotch::RandomRemovalSet;
use blotch::new_rng;
use rand::Rng;

#[test]
fn remove_random_drains_exactly_the_domain() {
    let mut set = RandomRemovalSet::new_full(10);
    let mut rng = new_rng(7);
    let mut seen: Vec<usize> = Vec::new();
    for _ in 0..10 {
        let c = set.remove_random(&mut rng).expect("set still has elements");
        seen.push(c);
    }
    assert!(set.remove_random(&mut rng).is_none());
    seen.sort();
    let expected: Vec<usize> = (0..10).collect();
    assert_eq!(seen, expected);
}

#[test]
fn remove_by_key_reports_presence() {
    let mut set = RandomRemovalSet::new_full(5);
    assert!(set.remove(3));
    assert!(!set.remove(3));
    assert!(set.remove(0));
    assert!(set.remove(4));
    assert!(!set.remove(7));
    assert!(set.remove(1));
    assert!(set.remove(2));
    assert!(!set.remove(0));
}

#[test]
fn randomized_removals_stay_consistent_with_a_mirror() {
    let n: usize = 50;
    let mut set = RandomRemovalSet::new_full(n);
    let mut present = vec![true; n];
    let mut count = n;
    let mut rng = new_rng(12345);
    let mut op_rng = new_rng(999);
    for _ in 0..400 {
        if op_rng.random_range(0..2) == 0 {
            let got = set.remove_random(&mut rng);
            match got {
                Some(c) => {
                    assert!(c < n, "removed element outside the domain");
                    assert!(present[c], "removed element was not present");
                    present[c] = false;
                    count -= 1;
                }
                None => {
                    assert_eq!(count, 0, "empty answer while elements remain");
                }
            }
        } else {
            let k = op_rng.random_range(0..n);
            let was = set.remove(k);
            assert_eq!(was, present[k], "presence report disagrees with mirror");
            if was {
                present[k] = false;
                count -= 1;
            }
        }
    }
    for k in 0..n {
        let was = set.remove(k);
        assert_eq!(was, present[k]);
    }
    assert!(set.remove_random(&mut rng).is_none());
}
