use netholdem::classic::model::Player;
use netholdem::classic::protocol::{
    IntroductionRequest, IntroductionResponse, Request, Response, SitInRequest,
};
use netholdem::classic::requests::Phase;
use netholdem::classic::state::{Address, Client, Delivery, Error, Synced};
use netholdem::server::Settings as GameSettings;
use netholdem::settings::{Logging, Runtime, Server, Settings};
use netholdem::stats::Stats;

fn addr(port: u16) -> Address {
    Address { ip: 0x7f00_0001, is_v6: false, port, flowinfo: 0, scope_id: 0 }
}

fn named(name: &str) -> Player {
    Player { name: name.to_string() }
}

#[test]
fn default_settings() {
    let s = Settings::default();
    assert_eq!(s.logging.level, "info");
    assert!(s.runtime.threaded);
    assert_eq!(s.runtime.max_threads, s.runtime.core_threads * 2);
    assert_eq!(s.runtime.thread_name, "async-worker");
    assert_eq!(s.server.bind_addr, "127.0.0.1:3000");
    assert_eq!(s.server.client_files_path, "./ui/");
    assert_eq!(Logging::default().level, "info");
    assert_eq!(Server::default().bind_addr, "127.0.0.1:3000");
    assert!(Runtime::default().core_threads >= 1);
    assert_eq!(GameSettings::default().max_players_cap, 8);
}

#[test]
fn max_threads_exceed_core_threads() {
    let mut r = Runtime { threaded: true, core_threads: 4, max_threads: 8, thread_name: "w".to_string() };
    assert_eq!(r.adjusted_max_threads(), 8);
    r.max_threads = 4;
    assert_eq!(r.adjusted_max_threads(), 5);
    r.max_threads = 1;
    assert_eq!(r.adjusted_max_threads(), 5);
    r.core_threads = 0;
    r.max_threads = 0;
    assert_eq!(r.adjusted_max_threads(), 1);
}

#[test]
fn stats_compare() {
    assert_eq!(Stats { total_accepted_connections: 3 }, Stats { total_accepted_connections: 3 });
    assert_eq!(
        netholdem::classic::stats::Stats { total_accepted_connections: 1 },
        netholdem::classic::stats::Stats { total_accepted_connections: 1 }
    );
}

#[test]
fn registering_players() {
    let mut s = Synced::new();
    let c = s.register_new_client(addr(1), 100);
    assert_eq!(c.address(), addr(1));
    assert!(!s.already_named(addr(1)));
    assert_eq!(s.register_player(addr(1), named("ann")), Ok(()));
    assert!(s.already_named(addr(1)));
    assert!(s.contains_player(&named("ann")));
    // The same client may not name itself twice.
    assert_eq!(s.register_player(addr(1), named("bea")), Err(Error::ClientAlreadyNamed));
    assert!(!s.contains_player(&named("bea")));
    // Another client may not take the name.
    assert_eq!(s.register_player(addr(2), named("ann")), Err(Error::PlayerNameTaken));
    assert!(!s.already_named(addr(2)));
    assert_eq!(s.register_player(addr(2), named("bea")), Ok(()));
}

#[test]
fn cleanup_frees_the_name() {
    let mut s = Synced::new();
    assert_eq!(s.register_player(addr(1), named("ann")), Ok(()));
    s.cleanup_client(addr(1));
    assert!(!s.already_named(addr(1)));
    assert!(!s.is_connected(addr(1)));
    assert!(!s.contains_player(&named("ann")));
    assert_eq!(s.register_player(addr(2), named("ann")), Ok(()));
    // Cleaning up an unnamed client changes nothing.
    s.cleanup_client(addr(3));
    assert!(s.contains_player(&named("ann")));
}

#[test]
fn clients_send_on_their_channel() {
    let mut c = Client::new(addr(9), 77);
    assert_eq!(c.send(Response::Illegal), Delivery { tx: 77, response: Response::Illegal });
    assert_eq!(c.address(), addr(9));
}

#[test]
fn new_clients_introduce_themselves() {
    let mut s = Synced::new();
    let mut a = s.register_new_client(addr(1), 1);
    let mut b = s.register_new_client(addr(2), 2);
    let intro = |n: &str| Request::Introduction(IntroductionRequest { player: named(n) });

    let (phase, d) = Phase::NewClient.handle(&mut s, &mut a, Request::SitIn(SitInRequest));
    assert_eq!(phase, Phase::NewClient);
    assert_eq!(d, Some(Delivery { tx: 1, response: Response::Illegal }));

    let (phase, d) = Phase::NewClient.handle(&mut s, &mut a, intro("ann"));
    assert_eq!(phase, Phase::RegisteredPlayer);
    assert_eq!(d, Some(Delivery { tx: 1, response: Response::Introduction(IntroductionResponse::Success) }));

    let (phase, d) = Phase::NewClient.handle(&mut s, &mut b, intro("ann"));
    assert_eq!(phase, Phase::NewClient);
    assert_eq!(d, Some(Delivery { tx: 2, response: Response::Introduction(IntroductionResponse::NameAlreadyInUse) }));

    // A client that is already named but introduces itself again is illegal.
    let (phase, d) = Phase::NewClient.handle(&mut s, &mut a, intro("cat"));
    assert_eq!(phase, Phase::NewClient);
    assert_eq!(d, Some(Delivery { tx: 1, response: Response::Illegal }));

    // Later phases do not answer yet.
    let (phase, d) = Phase::RegisteredPlayer.handle(&mut s, &mut a, intro("dan"));
    assert_eq!((phase, d), (Phase::RegisteredPlayer, None));
    let (phase, d) = Phase::Playing.handle(&mut s, &mut a, Request::SitIn(SitInRequest));
    assert_eq!((phase, d), (Phase::Playing, None));
}

#[test]
fn cleanup_forgets_the_client() {
    let mut s = Synced::new();
    s.register_new_client(addr(4), 40);
    s.register_new_client(addr(5), 50);
    assert!(s.is_connected(addr(4)));
    assert_eq!(s.register_player(addr(4), named("cid")), Ok(()));
    s.cleanup_client(addr(4));
    // The disconnected client is gone, its name is free, and the other
    // client is still connected.
    assert!(!s.is_connected(addr(4)));
    assert!(!s.contains_player(&named("cid")));
    assert!(s.is_connected(addr(5)));
    // Cleaning up a connected client that never named itself forgets it too.
    s.cleanup_client(addr(5));
    assert!(!s.is_connected(addr(5)));
}

#[test]
fn runtime_for_a_given_core_count() {
    let r = Runtime::with_cores(6);
    assert!(r.threaded);
    assert_eq!(r.core_threads, 6);
    assert_eq!(r.max_threads, 12);
    assert_eq!(r.thread_name, "async-worker");
    // The product wraps on overflow.
    assert_eq!(Runtime::with_cores(usize::MAX).max_threads, usize::MAX.wrapping_mul(2));
}
