use stolas::time::{
    check_time_sync, parse_timedatectl_output, update_time_synced, SyncCheck, TimeDateCtlStatus,
    TimedatectlError,
};

const SAMPLE: &str = "Timezone=Europe/Berlin\nLocalRTC=no\nCanNTP=yes\nNTP=yes\nNTPSynchronized=no\nTimeUSec=Wed 2026-04-29 09:36:12 CEST\nRTCTimeUSec=Wed 2026-04-29 07:36:12 CEST\n";

#[test]
fn timedatectl_sample_output() {
    let st = parse_timedatectl_output(SAMPLE.as_bytes()).unwrap();
    assert_eq!(
        st,
        TimeDateCtlStatus { local_rtc: false, can_ntp: true, ntp: true, ntp_synchronized: false }
    );
    assert_eq!(check_time_sync(&st), SyncCheck::Pending);
}

#[test]
fn timedatectl_synchronized_with_crlf_and_padding() {
    let out = "  \r\nLocalRTC=yes\r\nNTPSynchronized=yes\r\nNTP=no  \n\n";
    let st = parse_timedatectl_output(out.as_bytes()).unwrap();
    assert_eq!(
        st,
        TimeDateCtlStatus { local_rtc: true, can_ntp: false, ntp: false, ntp_synchronized: true }
    );
    assert_eq!(check_time_sync(&st), SyncCheck::Synchronized);
}

#[test]
fn timedatectl_values_other_than_yes_are_false() {
    let st = parse_timedatectl_output(b"NTP=Yes\nCanNTP=yes \nLocalRTC=").unwrap();
    assert!(!st.ntp);
    assert!(!st.can_ntp, "the value keeps its trailing space inside the text");
    assert!(!st.local_rtc);
    assert_eq!(check_time_sync(&st), SyncCheck::NtpDisabled);
}

#[test]
fn timedatectl_later_lines_win() {
    let st = parse_timedatectl_output(b"NTP=yes\nNTP=no").unwrap();
    assert!(!st.ntp);
}

#[test]
fn timedatectl_empty_output() {
    assert_eq!(parse_timedatectl_output(b"").unwrap(), TimeDateCtlStatus::default());
    assert_eq!(parse_timedatectl_output(b" \n\t ").unwrap(), TimeDateCtlStatus::default());
}

#[test]
fn timedatectl_errors() {
    assert_eq!(parse_timedatectl_output(b"NTP=yes\nbogus"), Err(TimedatectlError::UnexpectedOutput));
    assert_eq!(parse_timedatectl_output(b"NTP=yes\n\nNTP=no"), Err(TimedatectlError::UnexpectedOutput));
    assert_eq!(parse_timedatectl_output(&[b'N', 0xff]), Err(TimedatectlError::InvalidUtf8));
}

#[test]
fn timedatectl_unicode_whitespace_is_trimmed() {
    let st = parse_timedatectl_output("\u{a0}\u{3000}NTP=yes\u{2028}".as_bytes()).unwrap();
    assert!(st.ntp);
}

#[test]
fn time_synced_is_sticky() {
    let synced = TimeDateCtlStatus { ntp_synchronized: true, ..Default::default() };
    assert!(update_time_synced(true, None));
    assert!(!update_time_synced(false, None));
    assert!(update_time_synced(false, Some(synced)));
    assert!(!update_time_synced(false, Some(TimeDateCtlStatus::default())));
}

#[test]
fn time_synced_sticks_over_polls() {
    let st = |sync: bool| Some(TimeDateCtlStatus { local_rtc: false, can_ntp: true, ntp: true, ntp_synchronized: sync });
    let polls = [st(false), None, st(true), st(false), None];
    let mut synced = false;
    let mut seen = Vec::new();
    for p in polls {
        synced = update_time_synced(synced, p);
        seen.push(synced);
    }
    assert_eq!(seen, vec![false, false, true, true, true]);
}
