use stremio_core::models::common::Loadable;
use stremio_core::models::streaming_server::{
    create_torrent_from_magnet, decode_btih, get_statistics, statistics_result, StatisticsEffect, StatisticsRequest,
    TorrentStatistics, server_info_result, https_endpoint_result, remote_url_update, RemoteUrlEffect, parse_magnet, play_on_device, play_on_device_result,
    playback_devices_result, refresh_playback_devices, torrent_created, BtihError, DevicesEffect, PlayOnDeviceArgs,
    PlaybackDevice, PlaybackDevices, Torrent, TorrentEffect,
};
use stremio_core::runtime::EnvError;

const HALO_HASH: [u8; 20] = [
    13, 84, 226, 51, 151, 6, 241, 115, 172, 32, 244, 239, 251, 74, 212, 45, 156, 122, 132, 233,
];

#[test]
fn test_magnet() {
    {
        let magnet_1 = "magnet:?xt=urn:btih:8C3C23F2D1635FA63968C43D3366329E7A14EB39&dn=Pluribus%20S01E05%201080p%20WEB%20h264-ETHEL&tr=udp%3A%2F%2Ftracker.opentrackr.org%3A1337&tr=udp%3A%2F%2Fopen.stealth.si%3A80%2Fannounce&tr=udp%3A%2F%2Ftracker.torrent.eu.org%3A451%2Fannounce&tr=udp%3A%2F%2Ftracker.bittor.pw%3A1337%2Fannounce&tr=udp%3A%2F%2Fpublic.popcorn-tracker.org%3A6969%2Fannounce&tr=udp%3A%2F%2Ftracker.dler.org%3A6969%2Fannounce&tr=udp%3A%2F%2Fexodus.desync.com%3A6969&tr=udp%3A%2F%2Fopen.demonii.com%3A1337%2Fannounce&tr=udp%3A%2F%2Fglotorrents.pw%3A6969%2Fannounce&tr=udp%3A%2F%2Ftracker.coppersurfer.tk%3A6969&tr=udp%3A%2F%2Ftorrent.gresille.org%3A80%2Fannounce&tr=udp%3A%2F%2Fp4p.arenabg.com%3A1337&tr=udp%3A%2F%2Ftracker.internetwarriors.net%3A1337";

        let (_magnet, _hash) = decode_btih(magnet_1).expect("Should parse BTIH hash");
    }
    {
        let magnet_2 = "magnet:?xt=urn:btih:AA145F3937E74AA9235A4AB00D5B9BCFDBB08C78&dn=Pluribus.S01E01.1080p.x265-ELiTE&tr=udp%3A%2F%2Ftracker.torrent.eu.org%3A451%2Fannounce&tr=udp%3A%2F%2Fopen.stealth.si%3A80%2Fannounce&tr=udp%3A%2F%2Fopen.demonii.com%3A1337%2Fannounce&tr=udp%3A%2F%2Ftracker.opentrackr.org%3A1337%2Fannounce&tr=udp%3A%2F%2Fexplodie.org%3A6969%2Fannounce&tr=udp%3A%2F%2Fp4p.arenabg.com%3A1337%2Fannounce&tr=http%3A%2F%2Ftracker.bt4g.com%3A2095%2Fannounce&tr=http%3A%2F%2Ftracker.renfei.net%3A8080%2Fannounce&tr=udp%3A%2F%2Ftracker.opentrackr.org%3A1337%2Fannounce&tr=http%3A%2F%2Ftracker.openbittorrent.com%3A80%2Fannounce&tr=udp%3A%2F%2Fopentracker.i2p.rocks%3A6969%2Fannounce&tr=udp%3A%2F%2Ftracker.internetwarriors.net%3A1337%2Fannounce&tr=udp%3A%2F%2Ftracker.leechers-paradise.org%3A6969%2Fannounce&tr=udp%3A%2F%2Fcoppersurfer.tk%3A6969%2Fannounce&tr=udp%3A%2F%2Ftracker.zer0day.to%3A1337%2Fannounce";
        let (_magnet, _hash) = decode_btih(magnet_2).expect("Should parse BTIH hash");
    }
}

#[test]
fn decode_btih_reads_hex_and_base32_hashes() {
    let (_, hex) = decode_btih("magnet:?xt=urn:btih:0d54e2339706f173ac20f4effb4ad42d9c7a84e9&dn=Halo").unwrap();
    assert_eq!(hex, HALO_HASH.to_vec());
    let (_, upper) = decode_btih("magnet:?xt=urn:btih:0D54E2339706F173AC20F4EFFB4AD42D9C7A84E9").unwrap();
    assert_eq!(upper, HALO_HASH.to_vec());
    let (_, base32) = decode_btih("magnet:?xt=urn:btih:BVKOEM4XA3YXHLBA6TX7WSWUFWOHVBHJ").unwrap();
    assert_eq!(base32, HALO_HASH.to_vec());
}

#[test]
fn decode_btih_reports_each_failure() {
    assert_eq!(
        decode_btih("http://example.com").unwrap_err(),
        BtihError::NotAMagnet("provided link is not a valid magnet URL".to_string())
    );
    assert_eq!(decode_btih("magnet:?dn=NoTopic").unwrap_err(), BtihError::NoTopic);
    assert_eq!(
        decode_btih("magnet:?xt=urn:sha1:0d54e2339706f173ac20f4effb4ad42d9c7a84e9").unwrap_err(),
        BtihError::NotBtih
    );
    assert_eq!(
        decode_btih("magnet:?xt=urn:btih:").unwrap_err(),
        BtihError::UnrecognizedHashFormat(String::new())
    );
    // forty characters that are not all hexadecimal digits
    assert_eq!(
        decode_btih("magnet:?xt=urn:btih:0d54e2339706f173ac20f4effb4ad42d9c7a84zz").unwrap_err(),
        BtihError::UnrecognizedHashFormat("0d54e2339706f173ac20f4effb4ad42d9c7a84zz".to_string())
    );
    assert_eq!(
        BtihError::UnrecognizedHashFormat("abc".to_string()).to_display_string(),
        "Unrecognized hash format: abc"
    );
    // thirty-two characters that are not Base32
    assert!(matches!(
        decode_btih("magnet:?xt=urn:btih:bvkoem4xa3yxhlba6tx7wswufwohvbh1").unwrap_err(),
        BtihError::InvalidBase32(_)
    ));
    assert_eq!(BtihError::NotBtih.to_display_string(), "No BTIH hash type in exact topic parameter found");
}

#[test]
fn parse_magnet_gives_the_info_hash_and_trackers() {
    let (hash, trackers) = parse_magnet(
        "magnet:?xt=urn:btih:0d54e2339706f173ac20f4effb4ad42d9c7a84e9&tr=udp://a:1&dn=x&tr=udp://b:2",
    )
    .unwrap();
    assert_eq!(hash, HALO_HASH.to_vec());
    assert_eq!(trackers, vec!["udp://a:1".to_string(), "udp://b:2".to_string()]);
    // a SHA-256 info hash (32 bytes) is not a BitTorrent v1 info hash
    assert!(parse_magnet(
        "magnet:?xt=urn:btih:0d54e2339706f173ac20f4effb4ad42d9c7a84e90d54e2339706f173ac20f4ef"
    )
    .is_none());
    assert!(parse_magnet("not a magnet").is_none());
}

#[test]
fn a_magnet_link_starts_creating_its_torrent() {
    let mut torrent: Torrent = None;
    let link = "magnet:?xt=urn:btih:0D54E2339706F173AC20F4EFFB4AD42D9C7A84E9&tr=udp%3A%2F%2Ftracker.example%3A80";
    let r = create_torrent_from_magnet(&mut torrent, "http://127.0.0.1:11470/", link);
    assert!(r.has_changed);
    assert!(matches!(&torrent, Some((hash, Loadable::Loading)) if hash.as_slice() == HALO_HASH));
    assert!(matches!(&r.effects[0], TorrentEffect::CreateMagnet { transport_url, info_hash, announce }
        if transport_url == "http://127.0.0.1:11470/" && info_hash.as_slice() == HALO_HASH && announce.len() == 1));
    assert!(matches!(&r.effects[1], TorrentEffect::MagnetParsed(m) if m == link));
    let again = create_torrent_from_magnet(&mut torrent, "http://127.0.0.1:11470/", link);
    assert!(!again.has_changed);
    let other = torrent_created(&mut torrent, &[0u8; 20], Ok(()));
    assert!(!other.has_changed);
    let created = torrent_created(&mut torrent, &HALO_HASH, Ok(()));
    assert!(created.has_changed);
    match &torrent {
        Some((_, Loadable::Ready(path))) => {
            assert_eq!(path.resource, "meta");
            assert_eq!(path.content_type, "other");
            assert_eq!(path.id, "bt:0d54e2339706f173ac20f4effb4ad42d9c7a84e9");
            assert!(path.extra.is_empty());
        }
        _ => panic!("the torrent is created"),
    }
    let late = torrent_created(&mut torrent, &HALO_HASH, Err(EnvError::Other("late".into())));
    assert!(!late.has_changed);
}

#[test]
fn a_bad_magnet_link_clears_the_torrent() {
    let mut torrent: Torrent = Some((HALO_HASH.to_vec(), Loadable::Loading));
    let r = create_torrent_from_magnet(&mut torrent, "http://127.0.0.1:11470/", "https://not.a.magnet/");
    assert!(r.has_changed && torrent.is_none());
    assert!(matches!(&r.effects[..], [TorrentEffect::MagnetError(EnvError::Other(m), l)]
        if m == "Failed to parse magnet url" && l == "https://not.a.magnet/"));
    let mut loading: Torrent = Some((HALO_HASH.to_vec(), Loadable::Loading));
    let failed = torrent_created(&mut loading, &HALO_HASH, Err(EnvError::Other("down".into())));
    assert!(failed.has_changed);
    assert!(matches!(&loading, Some((_, Loadable::Error(EnvError::Other(m)))) if m == "down"));
}

fn device(id: &str) -> PlaybackDevice {
    PlaybackDevice { id: id.into(), name: id.to_uppercase(), device_type: "external".into() }
}

#[test]
fn only_the_latest_generation_of_playback_devices_is_taken() {
    let url = "http://127.0.0.1:11470/";
    let mut state = PlaybackDevices { transport_url: url.into(), devices: Loadable::Loading, generation: 0 };
    let r = refresh_playback_devices(&mut state);
    assert_eq!(state.generation, 1);
    assert!(matches!(&r.effects[..], [DevicesEffect::GetPlaybackDevices(u, 1)] if u == url));
    let stale = playback_devices_result(&mut state, url, 0, Ok(vec![device("vlc")]));
    assert!(!stale.has_changed && state.devices.is_loading());
    let other = playback_devices_result(&mut state, "http://other/", 1, Ok(vec![device("vlc")]));
    assert!(!other.has_changed);
    let ready = playback_devices_result(&mut state, url, 1, Ok(vec![device("vlc")]));
    assert!(ready.has_changed);
    let same = playback_devices_result(&mut state, url, 1, Ok(vec![device("vlc")]));
    assert!(!same.has_changed);
    let failed = playback_devices_result(&mut state, url, 1, Err(EnvError::Other("down".into())));
    assert!(!failed.has_changed);
    assert!(matches!(&state.devices, Loadable::Ready(d) if d.len() == 1));
    let mut loading = PlaybackDevices { transport_url: url.into(), devices: Loadable::Loading, generation: 3 };
    let err = playback_devices_result(&mut loading, url, 3, Err(EnvError::Other("down".into())));
    assert!(err.has_changed && matches!(loading.devices, Loadable::Error(_)));
}

#[test]
fn playing_on_device_needs_a_url_and_a_known_device() {
    let url = "http://127.0.0.1:11470/";
    let state = PlaybackDevices { transport_url: url.into(), devices: Loadable::Ready(vec![device("vlc")]), generation: 0 };
    let args = |device: &str, source: &str| PlayOnDeviceArgs { device: device.into(), source: source.into(), time: Some(5) };
    let r = play_on_device(&state, args("vlc", "http://127.0.0.1:11470/stream.mp4"));
    assert!(matches!(&r.effects[..], [DevicesEffect::PlayOnDevice(u, a)] if u == url && a.device == "vlc" && a.time == Some(5)));
    assert!(play_on_device(&state, args("chromecast", "http://127.0.0.1:11470/stream.mp4")).effects.is_empty());
    assert!(play_on_device(&state, args("vlc", "not a url")).effects.is_empty());
    let loading = PlaybackDevices { transport_url: url.into(), devices: Loadable::Loading, generation: 0 };
    assert!(play_on_device(&loading, args("vlc", "http://127.0.0.1:11470/stream.mp4")).effects.is_empty());
    assert!(matches!(&play_on_device_result("vlc", true).effects[..], [DevicesEffect::PlayingOnDevice(d)] if d == "vlc"));
    assert!(play_on_device_result("vlc", false).effects.is_empty());
}

#[test]
fn the_remote_url_needs_an_address_and_a_session() {
    let url = "http://127.0.0.1:11470/";
    let mut remote = Some("https://old.example:1/".to_string());
    let r = remote_url_update(&mut remote, url, Some("192.168.0.1"), Some("key"));
    assert!(!r.has_changed && remote.is_some());
    assert!(matches!(&r.effects[..], [RemoteUrlEffect::GetHttps { transport_url, auth_key, ip_address }]
        if transport_url == url && auth_key == "key" && ip_address == "192.168.0.1"));
    let r = remote_url_update(&mut remote, url, Some(""), Some("key"));
    assert!(r.has_changed && remote.is_none() && r.effects.is_empty());
    let r = remote_url_update(&mut remote, url, Some("192.168.0.1"), None);
    assert!(!r.has_changed && remote.is_none());
}

#[test]
fn the_https_endpoint_becomes_the_remote_url() {
    let url = "http://127.0.0.1:11470/";
    let mut remote = None;
    let other = https_endpoint_result(&mut remote, url, "http://other:11470/", Some(("a.example", 443)));
    assert!(!other.has_changed && remote.is_none());
    let r = https_endpoint_result(&mut remote, url, url, Some(("192-168-0-1.example.rocks", 12470)));
    assert!(r.has_changed);
    assert_eq!(remote.as_deref(), Some("https://192-168-0-1.example.rocks:12470/"));
    let again = https_endpoint_result(&mut remote, url, url, Some(("192-168-0-1.example.rocks", 12470)));
    assert!(!again.has_changed);
    let failed = https_endpoint_result(&mut remote, url, url, None);
    assert!(!failed.has_changed && remote.is_some());
}

#[test]
fn statistics_are_asked_and_taken_for_the_selected_torrent() {
    let url = "http://127.0.0.1:11470/";
    let mut state: TorrentStatistics<u32> = TorrentStatistics { selected: None, statistics: None };
    let request = StatisticsRequest { info_hash: "0d54e2339706f173ac20f4effb4ad42d9c7a84e9".into(), file_idx: 0 };
    let r = get_statistics(&mut state, url, &request);
    assert!(r.has_changed && matches!(state.statistics, Some(Loadable::Loading)));
    assert!(matches!(&r.effects[..], [StatisticsEffect::GetStatistics(u, q)] if u == url && q.file_idx == 0));
    let other = StatisticsRequest { info_hash: "ff".into(), file_idx: 0 };
    assert!(!statistics_result(&mut state, url, url, &other, Ok(Some(7))).has_changed);
    assert!(statistics_result(&mut state, url, url, &request, Ok(Some(7))).has_changed);
    assert!(matches!(state.statistics, Some(Loadable::Ready(7))));
    assert!(!statistics_result(&mut state, url, url, &request, Ok(None)).has_changed);
    assert!(!statistics_result(&mut state, url, url, &request, Ok(Some(7))).has_changed);
    let again = get_statistics(&mut state, url, &request);
    assert!(!again.has_changed && matches!(state.statistics, Some(Loadable::Ready(7))));
    assert!(statistics_result(&mut state, url, url, &request, Err(EnvError::Other("gone".into()))).has_changed);
    assert!(matches!(state.statistics, Some(Loadable::Error(_))));
}

#[test]
fn server_information_is_taken_once_while_loading() {
    let url = "http://127.0.0.1:11470/";
    let mut info: Loadable<Vec<String>, EnvError> = Loadable::Loading;
    let other: stremio_core::runtime::Effects<()> = server_info_result(&mut info, url, "http://other/", Ok(vec!["eth0".into()]));
    assert!(!other.has_changed && info.is_loading());
    let taken: stremio_core::runtime::Effects<()> = server_info_result(&mut info, url, url, Ok(vec!["eth0".into()]));
    assert!(taken.has_changed && matches!(&info, Loadable::Ready(i) if i.len() == 1));
    let late: stremio_core::runtime::Effects<()> = server_info_result(&mut info, url, url, Err(EnvError::Other("x".into())));
    assert!(!late.has_changed && matches!(info, Loadable::Ready(_)));
}
