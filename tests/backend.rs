use led_controller::backend::{Backend, Channel, ChannelWrite};

fn as_pairs(writes: &[ChannelWrite]) -> Vec<(Channel, Vec<u8>)> {
    writes.iter().map(|w| (w.channel, w.bytes.clone())).collect()
}

/// Writes at the start of a file without truncating it, as the loop does.
fn overwrite(content: &mut Vec<u8>, data: &[u8]) {
    for (i, b) in data.iter().enumerate() {
        if i < content.len() {
            content[i] = *b;
        } else {
            content.push(*b);
        }
    }
}

#[test]
fn each_backend_samples_its_own_file() {
    assert_eq!(Backend::Unified.speed_channel(), Channel::Device);
    assert_eq!(Backend::Split.speed_channel(), Channel::ButtonSpeed);
}

#[test]
fn each_backend_reads_its_own_format() {
    assert_eq!(Backend::Unified.read_speed("speed: 3 presses/second"), 3);
    assert_eq!(Backend::Unified.read_speed("  4\n"), 0);
    assert_eq!(Backend::Split.read_speed("  4\n"), 4);
    assert_eq!(Backend::Split.read_speed("speed: 3"), 0);
}

#[test]
fn unified_commit_is_one_device_write() {
    let writes = Backend::Unified.commit_writes(49, 17, 0);
    assert_eq!(as_pairs(&writes), vec![(Channel::Device, b"49 17 0".to_vec())]);
}

#[test]
fn split_commit_writes_each_led_file() {
    let writes = Backend::Split.commit_writes(90, 83, 68);
    assert_eq!(
        as_pairs(&writes),
        vec![
            (Channel::Led1Duty, b"90".to_vec()),
            (Channel::Led2Duty, b"83".to_vec()),
            (Channel::Led3Duty, b"68".to_vec()),
        ]
    );
}

#[test]
fn committing_twice_leaves_what_committing_once_leaves() {
    for backend in [Backend::Unified, Backend::Split] {
        let writes = backend.commit_writes(10, 0, 0);
        let mut once = vec![b"100 100 100".to_vec(); writes.len()];
        for (file, w) in once.iter_mut().zip(writes.iter()) {
            overwrite(file, &w.bytes);
        }
        let mut twice = once.clone();
        for (file, w) in twice.iter_mut().zip(writes.iter()) {
            overwrite(file, &w.bytes);
        }
        assert_eq!(once, twice);
    }
}
