use istring::small::SmallString;
use istring::IString;

#[test]
fn test_misc_istring() {
    let short = "Hello World!";
    let long = "Hello World! .........xyz";
    let tail = " .........xyz";

    let s1 = IString::from(short);
    assert_eq!(s1, short);

    let s2 = IString::from(long);
    assert_eq!(s2, long);

    let mut s3 = s1.clone();
    s3.push_str(tail);
    assert_eq!(s3, long);
}

#[test]
fn test_misc_smallstring() {
    let short = "Hello World!";
    let long = "Hello World! .........xyz";

    let s1 = SmallString::from(short);
    assert_eq!(s1, short);

    let s2 = SmallString::from(long);
    assert_eq!(s2, long);
}
