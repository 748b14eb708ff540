use meek_aria::Optional;

#[test]
fn optional_unwrapping() {
    assert_eq!(Optional::Present(3).unwrap(), 3);
    assert_eq!(Optional::Present(3).unwrap_or(7), 3);
    assert_eq!(Optional::<i32>::Absent.unwrap_or(7), 7);
    assert_eq!(Optional::<i32>::Absent.unwrap_or_else(|| 9), 9);
    assert_eq!(Optional::<i32>::Absent.unwrap_or_default(), 0);
    assert_eq!(Optional::Present(4).expect("present"), 4);
    assert!(Optional::<i32>::default().is_none());
}

#[test]
fn optional_mapping() {
    assert_eq!(Optional::Present(2).map(|x| x * 10).as_option(), Some(20));
    assert!(Optional::<i32>::Absent.map(|x| x * 10).is_none());
    assert_eq!(Optional::<i32>::Absent.map_or(5, |x| x * 10).as_option(), Some(5));
    assert_eq!(Optional::Present(2).map_or(5, |x| x * 10).as_option(), Some(20));
    assert_eq!(Optional::<i32>::Absent.map_or_else(|| 6, |x| x * 10).as_option(), Some(6));
    assert_eq!(Optional::Present(1).and_then(|x| Optional::Present(x + 1)).as_option(), Some(2));
    assert_eq!(Optional::Present(1).filter(|x| if x > 0 { Some(x) } else { None }), Some(1));
    assert_eq!(Optional::<i32>::Absent.filter(|x| Some(x)), None);
    assert!(Optional::Present(3).is_some_and(|x| x == 3));
    assert!(!Optional::<i32>::Absent.is_some_and(|x| x == 3));
}

#[test]
fn optional_combinators() {
    assert_eq!(Optional::Present(1).xor(Optional::Absent).as_option(), Some(1));
    assert_eq!(Optional::Absent.xor(Optional::Present(2)).as_option(), Some(2));
    assert!(Optional::Present(1).xor(Optional::Present(2)).is_none());
    assert!(Optional::<i32>::Absent.xor(Optional::Absent).is_none());
    assert_eq!(Optional::Present(1).and(Optional::Present("b")).as_option(), Some("b"));
    assert!(Optional::<i32>::Absent.and(Optional::Present("b")).is_none());
    assert_eq!(Optional::<i32>::Absent.or(8).as_option(), Some(8));
    assert_eq!(Optional::Present(1).or(8).as_option(), Some(1));
    assert_eq!(Optional::<i32>::Absent.or_else(|| 4).as_option(), Some(4));
    assert_eq!(Optional::Present(1).ok_or("e"), Ok(1));
    assert_eq!(Optional::<i32>::Absent.ok_or("e"), Err("e"));
    assert_eq!(Optional::<i32>::Absent.ok_or_else(|| "f"), Err("f"));
}

#[test]
fn optional_in_place_changes() {
    let mut o = Optional::Present(1);
    assert_eq!(o.replace(2).as_option(), Some(1));
    assert_eq!(o.take().as_option(), Some(2));
    assert!(o.is_none());
    *o.get_or_insert(5) += 1;
    assert_eq!(o.as_ref().map(|x| *x).as_option(), Some(6));
    *o.insert(10) += 1;
    assert_eq!(o.as_ref().map(|x| *x).as_option(), Some(11));
    if let Optional::Present(v) = o.as_mut() {
        *v = 20;
    }
    assert_eq!(o.as_ref().map(|x| *x).as_option(), Some(20));
    let mut e: Optional<i32> = Optional::Absent;
    assert_eq!(*e.get_or_insert_with(|| 3), 3);
    let taken = e.take_if(|v| matches!(v, Optional::Present(3)));
    assert_eq!(taken.as_option(), Some(3));
    assert!(e.is_none());
    let mut f = Optional::Present(1);
    assert!(f.take_if(|_| false).is_none());
    assert!(f.is_some());
}

#[test]
fn optional_deref_and_conversion() {
    let s = Optional::Present(String::from("abc"));
    assert_eq!(s.as_deref().as_option(), Some("abc"));
    let mut b = Optional::Present(Box::new(5));
    if let Optional::Present(v) = b.as_deref_mut() {
        *v = 6;
    }
    assert_eq!(b.map(|x| *x).as_option(), Some(6));
    let from: Optional<i32> = Optional::from(Some(3));
    assert_eq!(from.as_option(), Some(3));
    let none: Optional<i32> = None.into();
    assert!(none.is_none());
    let mut seen = 0;
    let same = Optional::Present(7).inspect(|x| seen = *x);
    assert_eq!(seen, 7);
    assert_eq!(same.as_option(), Some(7));
}

#[test]
fn optional_equality_needs_two_present_values() {
    assert!(Optional::Present(1) == Optional::Present(1));
    assert!(Optional::Present(1) != Optional::Present(2));
    assert!(Optional::Present(1) != Optional::Absent);
    assert!(Optional::<i32>::Absent != Optional::Absent);
    let copy = Optional::Present(5).clone();
    assert!(copy == Optional::Present(5));
}
