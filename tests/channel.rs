use volezk::Channel;

#[test]
fn channel_keeps_its_halves() {
    let channel = Channel::new(vec![1u8, 2], String::from("out"));
    assert_eq!(channel.reader(), vec![1u8, 2]);
    let channel = Channel::new(3u32, 4u64);
    assert_eq!(channel.writer(), 4u64);
}

#[test]
fn channel_halves_can_be_changed() {
    let mut channel = Channel::new(Vec::<u8>::new(), Vec::<u8>::new());
    {
        let (r, w) = channel.halves_mut();
        r.push(1);
        w.push(2);
        w.push(3);
    }
    assert_eq!(channel.writer(), vec![2u8, 3]);
}
