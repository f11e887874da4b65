use ghciwatch::foo::Foo;

#[test]
fn test_unarmed() {
    let mut foo = Foo::new(String::from("Hello, world"));
    assert_eq!(foo.get().len(), 12);
    foo.get_mut().push('!');
    assert_eq!(foo.get().len(), 13);
}

#[test]
fn test_armed_good_drop() {
    let mut foo = Foo::new(42);
    let (foo_bomb, value) = Foo::take(&mut foo);
    assert_eq!(value, 42);
    drop(foo);
    drop(foo_bomb);
}

#[test]
fn test_armed_good_put() {
    let mut foo = Foo::new(42);
    let (foo_bomb, value) = Foo::take(&mut foo);
    assert_eq!(value, 42);
    Foo::put(&mut foo, 42);
    drop(foo_bomb);
}

#[test]
fn take_arms_and_put_disarms() {
    let mut foo = Foo::new(7);
    assert!(!Foo::is_armed(&foo));
    let (_bomb, value) = Foo::take(&mut foo);
    assert_eq!(value, 7);
    assert!(Foo::is_armed(&foo));
    Foo::put(&mut foo, 8);
    assert!(!Foo::is_armed(&foo));
    assert_eq!(*foo.get(), 8);
}

#[test]
fn value_is_the_last_one_given() {
    let mut foo = Foo::new(1);
    let (_bomb, one) = Foo::take(&mut foo);
    assert_eq!(one, 1);
    Foo::put(&mut foo, 2);
    assert_eq!(*foo.get(), 2);
    *foo.get_mut() += 5;
    assert_eq!(*foo.get(), 7);
    assert!(!Foo::is_armed(&foo));
}
