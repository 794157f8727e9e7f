use vittusave::cache::Cached;

#[test]
fn resolved_cache_keeps_file_and_value() {
    let c = Cached::at("/cache/names.toml".to_string());
    assert_eq!(c.path(), "/cache/names.toml");
    let mut r = c.resolve(vec![1u32, 2]);
    assert_eq!(r.path(), "/cache/names.toml");
    assert_eq!(r.get(), &vec![1, 2]);
    r.get_mut().push(3);
    assert_eq!(r.get(), &vec![1, 2, 3]);
}
