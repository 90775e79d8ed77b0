use siderite::randomslab::split2;
use siderite::Slab;

#[test]
fn test_random_slab() {
    let mut slab = Slab::new();

    let l1 = slab.insert("abc");
    println!("label of abc is {}", l1);
    let l2 = slab.insert("def");

    assert_eq!(slab.remove("0:nonsense"), None);

    assert_eq!(slab.remove(&l1), Some("abc"));
    assert_eq!(slab.remove(&l1), None);
    assert_eq!(slab.remove(&l1), None);

    let l3 = slab.insert("ghi");
    assert_eq!(slab.remove(&l3), Some("ghi"));
    assert_eq!(slab.remove(&l3), None);

    assert_eq!(slab.remove(&l2), Some("def"));
    assert_eq!(slab.remove("nonsense"), None);
}

#[test]
fn tokens_are_index_colon_eight_letters() {
    let mut slab = Slab::new();
    let t0 = slab.insert(10u32);
    let t1 = slab.insert(11u32);
    let (i0, l0) = t0.split_once(':').unwrap();
    let (i1, l1) = t1.split_once(':').unwrap();
    assert_eq!(i0, "0");
    assert_eq!(i1, "1");
    assert_eq!(l0.len(), 8);
    assert!(l0.chars().all(|c| c.is_ascii_alphabetic()));
    assert!(l1.chars().all(|c| c.is_ascii_alphabetic()));
}

#[test]
fn issued_token_finds_until_removed() {
    let mut slab = Slab::new();
    let t = slab.insert(5u32);
    assert_eq!(slab.get(&t), Some(&5));
    assert_eq!(slab.get(&t), Some(&5));
    assert_eq!(slab.remove(&t), Some(5));
    assert_eq!(slab.get(&t), None);
}

#[test]
fn stale_token_misses_a_reused_slot() {
    let mut slab = Slab::new();
    let old = slab.insert(1u32);
    assert_eq!(slab.remove(&old), Some(1));
    let fresh = slab.insert(2u32);
    let (i_old, l_old) = old.split_once(':').unwrap();
    let (i_fresh, l_fresh) = fresh.split_once(':').unwrap();
    assert_eq!(i_old, i_fresh);
    if l_old != l_fresh {
        assert_eq!(slab.get(&old), None);
        assert_eq!(slab.remove(&old), None);
    }
    assert_eq!(slab.get(&fresh), Some(&2));
}

#[test]
fn malformed_tokens_miss() {
    let mut slab = Slab::new();
    let t = slab.insert(1u32);
    let label = t.split_once(':').unwrap().1.to_string();
    assert_eq!(slab.get(&label), None);
    assert_eq!(slab.get(&format!("x:{}", label)), None);
    assert_eq!(slab.get(&format!("-0:{}", label)), None);
    assert_eq!(slab.get(&format!("0:{}x", label)), None);
    assert_eq!(slab.get(&format!("0:{}", &label[..7])), None);
    assert_eq!(slab.get(&format!("0:{}:", label)), None);
    assert_eq!(slab.get(&format!("99999999999999999999999:{}", label)), None);
    assert_eq!(slab.get(&format!("+0:{}", label)), None);
    assert_eq!(slab.get(&format!("00:{}", label)), None);
    assert_eq!(slab.remove(&format!("00:{}", label)), None);
    assert_eq!(slab.get(""), None);
    assert_eq!(slab.get(&t), Some(&1));
}

#[test]
fn split2_reads_index_and_label() {
    assert_eq!(split2("12:abcdefgh"), Some((12, "abcdefgh")));
    assert_eq!(split2("0:a:b"), None);
    assert_eq!(split2("3:"), Some((3, "")));
    assert_eq!(split2("+3:abc"), None);
    assert_eq!(split2("03:abc"), None);
    assert_eq!(split2("0:abc"), Some((0, "abc")));
    assert_eq!(split2("nonsense"), None);
    assert_eq!(split2(":abc"), None);
    assert_eq!(split2("1x:abc"), None);
    assert_eq!(split2("18446744073709551616:abc"), None);
}

#[test]
fn freed_slots_are_reused_before_the_array_grows() {
    let mut slab = Slab::new();
    let a = slab.insert('a');
    let b = slab.insert('b');
    assert_eq!(slab.remove(&a), Some('a'));
    let c = slab.insert('c');
    assert_eq!(c.split_once(':').unwrap().0, "0");
    let d = slab.insert('d');
    assert_eq!(d.split_once(':').unwrap().0, "2");
    assert_eq!(slab.get(&b), Some(&'b'));
    assert_eq!(slab.get(&c), Some(&'c'));
}
