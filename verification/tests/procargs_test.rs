use prexp::ffi::procargs::{env_after_args, procargs_env, split_first_char};

fn buffer(argc: i32, rest: &[u8]) -> Vec<u8> {
    let mut b = argc.to_ne_bytes().to_vec();
    b.extend_from_slice(rest);
    b
}

fn pairs(v: &[(&str, &str)]) -> Vec<(String, String)> {
    v.iter().map(|(k, val)| (k.to_string(), val.to_string())).collect()
}

const BODY: &[u8] = b"/bin/app\0\0\0app\0A=1\0B=x=y\0noeq\0\xff=1\0\0C=3\0";

#[test]
fn environment_after_arguments() {
    let b = buffer(1, BODY);
    assert_eq!(procargs_env(&b), pairs(&[("A", "1"), ("B", "x=y")]));
}

#[test]
fn environment_with_no_arguments_skipped() {
    let b = buffer(0, BODY);
    assert_eq!(procargs_env(&b), pairs(&[("A", "1"), ("B", "x=y")]));
    let b = buffer(2, BODY);
    assert_eq!(procargs_env(&b), pairs(&[("B", "x=y")]));
}

#[test]
fn short_or_exhausted_buffers() {
    assert!(procargs_env(b"").is_empty());
    assert!(procargs_env(&[1, 0, 0]).is_empty());
    assert!(procargs_env(&buffer(1, b"")).is_empty());
    assert!(procargs_env(&buffer(-1, BODY)).is_empty());
    assert!(procargs_env(&buffer(50, BODY)).is_empty());
}

#[test]
fn environment_runs_to_the_end_without_terminator() {
    let b = buffer(0, b"/p\0K=v");
    assert_eq!(procargs_env(&b), pairs(&[("K", "v")]));
    assert_eq!(env_after_args(&b, 0), pairs(&[("K", "v")]));
    let b = buffer(0, b"/p\0=empty\0K=\0");
    assert_eq!(env_after_args(&b, 0), pairs(&[("", "empty"), ("K", "")]));
}

#[test]
fn splitting_at_first_separator() {
    let s: Vec<char> = "a=b=c".chars().collect();
    let (k, v) = split_first_char(&s, '=').unwrap();
    assert_eq!(k.into_iter().collect::<String>(), "a");
    assert_eq!(v.into_iter().collect::<String>(), "b=c");
    let s: Vec<char> = "abc".chars().collect();
    assert!(split_first_char(&s, '=').is_none());
}
