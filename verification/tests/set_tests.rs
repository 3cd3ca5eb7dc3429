//! The Foundation-style set: construction, membership, comparison and
//! conversion behaviour.

use header_translator::ns_set::NSSet;
use header_translator::ns_value::{NSMutableString, NSNumber, NSObject, NSString};

#[test]
fn test_new() {
    let set = NSSet::<NSString>::new();
    assert!(set.is_empty());
}

#[test]
fn test_from_vec() {
    let set = NSSet::<NSString>::from_vec(Vec::new());
    assert!(set.is_empty());

    let strs = ["one", "two", "three"].map(NSString::from_str);
    let set = NSSet::from_vec(strs.to_vec());
    assert!(strs.into_iter().all(|s| set.contains(&s)));

    let nums = [1, 2, 3].map(NSNumber::new_i32);
    let set = NSSet::from_vec(nums.to_vec());
    assert!(nums.into_iter().all(|n| set.contains(&n)));
}

#[test]
fn test_from_slice() {
    let set = NSSet::<NSString>::from_slice(&[]);
    assert!(set.is_empty());

    let strs = ["one", "two", "three"].map(NSString::from_str);
    let set = NSSet::from_slice(&strs);
    assert!(strs.into_iter().all(|s| set.contains(&s)));

    let nums = [1, 2, 3].map(NSNumber::new_i32);
    let set = NSSet::from_slice(&nums);
    assert!(nums.into_iter().all(|n| set.contains(&n)));
}

#[test]
fn test_len() {
    let set = NSSet::<NSString>::new();
    assert!(set.is_empty());

    let set = NSSet::from_slice(&["one", "two", "two"].map(NSString::from_str));
    assert_eq!(set.len(), 2);

    let set = NSSet::from_vec(vec![NSObject::new(1), NSObject::new(2), NSObject::new(3)]);
    assert_eq!(set.len(), 3);
}

#[test]
fn test_get() {
    let set = NSSet::<NSString>::new();
    assert!(set.get(&NSString::from_str("one")).is_none());

    let set = NSSet::from_slice(&["one", "two", "two"].map(NSString::from_str));
    assert!(set.get(&NSString::from_str("two")).is_some());
    assert!(set.get(&NSString::from_str("three")).is_none());
}

#[test]
fn test_get_return_lifetime() {
    let set = NSSet::from_slice(&["one", "two", "two"].map(NSString::from_str));

    let res = {
        let value = NSString::from_str("one");
        set.get(&value)
    };

    assert_eq!(res, Some(&NSString::from_str("one")));
}

#[test]
fn test_get_any() {
    let set = NSSet::<NSString>::new();
    assert!(set.get_any().is_none());

    let strs = ["one", "two", "three"].map(NSString::from_str);
    let set = NSSet::from_slice(&strs);
    let any = set.get_any().unwrap();
    assert!(any == &strs[0] || any == &strs[1] || any == &strs[2]);
}

#[test]
fn test_contains() {
    let set = NSSet::<NSString>::new();
    assert!(!set.contains(&NSString::from_str("one")));

    let set = NSSet::from_slice(&["one", "two", "two"].map(NSString::from_str));
    assert!(set.contains(&NSString::from_str("one")));
    assert!(!set.contains(&NSString::from_str("three")));
}

#[test]
fn test_is_subset() {
    let set1 = NSSet::from_slice(&["one", "two"].map(NSString::from_str));
    let set2 = NSSet::from_slice(&["one", "two", "three"].map(NSString::from_str));

    assert!(set1.is_subset(&set2));
    assert!(!set2.is_subset(&set1));
}

#[test]
fn test_is_superset() {
    let set1 = NSSet::from_slice(&["one", "two"].map(NSString::from_str));
    let set2 = NSSet::from_slice(&["one", "two", "three"].map(NSString::from_str));

    assert!(!set1.is_superset(&set2));
    assert!(set2.is_superset(&set1));
}

#[test]
fn test_is_disjoint() {
    let set1 = NSSet::from_slice(&["one", "two"].map(NSString::from_str));
    let set2 = NSSet::from_slice(&["one", "two", "three"].map(NSString::from_str));
    let set3 = NSSet::from_slice(&["four", "five", "six"].map(NSString::from_str));

    assert!(!set1.is_disjoint(&set2));
    assert!(set1.is_disjoint(&set3));
    assert!(set2.is_disjoint(&set3));
}

#[test]
fn test_to_array() {
    let nums = [1, 2, 3];
    let set = NSSet::from_slice(&nums.map(NSNumber::new_i32));

    assert_eq!(set.to_array().len(), 3);
    assert!(set.to_array().iter().into_iter().all(|i| nums.contains(&i.as_i32())));
}

#[test]
fn test_iter() {
    let nums = [1, 2, 3];
    let set = NSSet::from_slice(&nums.map(NSNumber::new_i32));

    assert_eq!(set.iter().len(), 3);
    assert!(set.iter().into_iter().all(|i| nums.contains(&i.as_i32())));
}

#[test]
fn test_iter_fast() {
    let nums = [1, 2, 3];
    let set = NSSet::from_slice(&nums.map(NSNumber::new_i32));

    assert_eq!(set.iter_fast().len(), 3);
    assert!(set.iter_fast().into_iter().all(|i| nums.contains(&i.as_i32())));
}

#[test]
fn test_into_iter() {
    let nums = [1, 2, 3];
    let set = NSSet::from_slice(&nums.map(NSNumber::new_i32));

    assert!(NSSet::into_vec(set).into_iter().all(|i| nums.contains(&i.as_i32())));
}

#[test]
fn test_into_vec() {
    let strs = vec![
        NSMutableString::from_str("one"),
        NSMutableString::from_str("two"),
        NSMutableString::from_str("three"),
    ];
    let set = NSSet::from_vec(strs);

    let mut vec = NSSet::into_vec(set);
    for str in vec.iter_mut() {
        str.appendString(&NSString::from_str(" times zero is zero"));
    }

    assert_eq!(vec.len(), 3);
    let suffix = NSString::from_str("zero");
    assert!(vec.iter().all(|str| str.hasSuffix(&suffix)));
}

#[test]
fn test_equality() {
    let set1 = NSSet::<NSString>::new();
    let set2 = NSSet::<NSString>::new();
    assert_eq!(set1, set2);
}

#[test]
fn test_copy() {
    let set1 = NSSet::from_slice(&["one", "two", "three"].map(NSString::from_str));
    let set2 = set1.copy();
    assert_eq!(set1, set2);
}

#[test]
fn test_debug() {
    let set = NSSet::<NSString>::new();
    assert_eq!(set.debug_string(), "{}");

    let set = NSSet::from_slice(&["one", "two"].map(NSString::from_str));
    assert!(matches!(
        set.debug_string().as_str(),
        "{\"one\", \"two\"}" | "{\"two\", \"one\"}"
    ));
}
