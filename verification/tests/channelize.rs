use hi_observer::channelize::{check_settings, power_of_two, ChannelRange};

#[test]
fn settings_are_checked_in_order() {
    assert_eq!(check_settings(6, 4096, 4, 128, 128), Ok(()));
    assert_eq!(check_settings(3, 1, 1, 1, 1), Ok(()));
    assert_eq!(
        check_settings(5, 4096, 4, 128, 128),
        Err("Sampling rate can only be either 3 or 6 MSps")
    );
    assert_eq!(
        check_settings(6, 3000, 4, 128, 128),
        Err("Channel count must be a power of two between 1 and 8192")
    );
    assert_eq!(
        check_settings(6, 16384, 4, 128, 128),
        Err("Channel count must be a power of two between 1 and 8192")
    );
    assert_eq!(
        check_settings(6, 0, 0, 128, 128),
        Err("Channel count must be a power of two between 1 and 8192")
    );
    assert_eq!(
        check_settings(6, 512, 4, 0, 128),
        Err("PFB taps, displayed rows, and averaging count must be positive")
    );
    assert!(power_of_two(8192));
    assert!(!power_of_two(6));
    assert!(!power_of_two(0));
}

#[test]
fn channel_range_ends_follow_each_other() {
    let range = ChannelRange::new(512);
    assert_eq!(range, ChannelRange { channel_count: 512, min_channel: 0, max_channel: 511 });
    let moved = range.with_min_channel(100);
    assert_eq!(moved, ChannelRange { channel_count: 512, min_channel: 100, max_channel: 511 });
    let wide = ChannelRange { channel_count: 512, min_channel: 200, max_channel: 300 };
    assert_eq!(
        wide.with_max_channel(150),
        ChannelRange { channel_count: 512, min_channel: 149, max_channel: 150 }
    );
    assert_eq!(
        wide.with_max_channel(250),
        ChannelRange { channel_count: 512, min_channel: 200, max_channel: 250 }
    );
    assert_eq!(
        wide.with_min_channel(300),
        ChannelRange { channel_count: 512, min_channel: 300, max_channel: 301 }
    );
}

#[test]
fn channel_range_stays_within_the_channels() {
    let range = ChannelRange::new(512);
    assert_eq!(
        range.with_min_channel(511),
        ChannelRange { channel_count: 512, min_channel: 510, max_channel: 511 }
    );
    assert_eq!(
        range.with_min_channel(9999),
        ChannelRange { channel_count: 512, min_channel: 510, max_channel: 511 }
    );
    assert_eq!(
        range.with_max_channel(0),
        ChannelRange { channel_count: 512, min_channel: 0, max_channel: 1 }
    );
    assert_eq!(
        range.with_max_channel(600),
        ChannelRange { channel_count: 512, min_channel: 0, max_channel: 511 }
    );
    let single = ChannelRange::new(1);
    assert_eq!(single.with_min_channel(0), single);
    assert_eq!(single.with_max_channel(0), single);
}
