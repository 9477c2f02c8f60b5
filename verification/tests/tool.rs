use lanzaboote::cli::{
    install_signing, Cli, Commands, GcPcrlockCommand, LockThinStubCommand, Signing, Task,
};
use lanzaboote::path::{split_extension, UnixPath};
use lanzaboote::pcrlock::{resolve_pcrlock_path, PcrlockPaths};

fn path(text: &str) -> UnixPath {
    UnixPath::new(text.as_bytes())
}

fn show(path: &UnixPath) -> String {
    String::from_utf8(path.as_bytes().to_vec()).unwrap()
}

#[test]
fn paths_are_joined() {
    assert_eq!(show(&path("/a").join("b/c")), "/a/b/c");
    assert_eq!(show(&path("/a/").join("b")), "/a/b");
    assert_eq!(show(&path("").join("b")), "b");
    assert_eq!(show(&path("/a").join("/b")), "/b");
    assert_eq!(show(&path("/a").join("")), "/a/");
    assert_eq!(show(&path("/a").copy()), "/a");
}

#[test]
fn joins_like_std_paths() {
    for base in ["", "/", "/a", "a/", "a//"] {
        for part in ["", "b", "b/c", "/b", "./b"] {
            let expected = std::path::Path::new(base).join(part);
            assert_eq!(
                show(&path(base).join(part)),
                expected.to_str().unwrap().to_string()
            );
        }
    }
}

#[test]
fn splits_file_names_like_std_paths() {
    for name in ["a.b", "a", ".a", "a.", ".a.b", "a.b.c", "..a"] {
        let std_path = std::path::Path::new(name);
        let (stem, extension) = split_extension(name.as_bytes());
        assert_eq!(
            Some(String::from_utf8(stem.to_vec()).unwrap()),
            std_path
                .file_stem()
                .map(|stem| stem.to_str().unwrap().to_string())
        );
        assert_eq!(
            extension.map(|bytes| String::from_utf8(bytes.to_vec()).unwrap()),
            std_path
                .extension()
                .map(|extension| extension.to_str().unwrap().to_string())
        );
    }
}

#[test]
fn pcrlock_paths_stand_below_their_directory() {
    let paths = PcrlockPaths::new(&path("/var/lib/pcrlock.d"));
    assert_eq!(
        show(paths.lanzaboote()),
        "/var/lib/pcrlock.d/635-lanzaboote.pcrlock.d"
    );
    assert_eq!(
        show(&paths.lanzaboote_measurement("gen-1")),
        "/var/lib/pcrlock.d/635-lanzaboote.pcrlock.d/gen-1.pcrlock"
    );
    assert_eq!(
        show(&paths.bootloader_measurement("sd")),
        "/var/lib/pcrlock.d/630-bootloader.pcrlock.d/sd.pcrlock"
    );
    let all: Vec<String> = paths.iter().into_iter().map(show).collect();
    assert_eq!(
        all,
        vec![
            "/var/lib/pcrlock.d",
            "/var/lib/pcrlock.d/635-lanzaboote.pcrlock.d",
            "/var/lib/pcrlock.d/630-bootloader.pcrlock.d",
        ]
    );
}

#[test]
fn records_go_into_directories_by_hash() {
    assert_eq!(
        show(&resolve_pcrlock_path(&path("/d"), true, "abc")),
        "/d/abc.pcrlock"
    );
    assert_eq!(
        show(&resolve_pcrlock_path(&path("/f"), false, "abc")),
        "/f"
    );
}

#[test]
fn command_line_becomes_a_task() {
    let launch = Cli {
        quiet: true,
        verbose: 3,
        commands: Commands::LockThinStub(LockThinStubCommand {
            systemd: path("a"),
            esp: path("b"),
            pcrlock: path("c"),
            stub: path("d"),
        }),
    }
    .call();
    assert!(launch.quiet);
    assert_eq!(launch.verbosity, 5);
    match launch.task {
        Task::LockThinStub(args) => {
            assert_eq!(show(&args.systemd), "a");
            assert_eq!(show(&args.esp), "b");
            assert_eq!(show(&args.pcrlock), "c");
            assert_eq!(show(&args.stub), "d");
        }
        other => panic!("unexpected {other:?}"),
    }
    let task = Commands::GcPcrlock(GcPcrlockCommand {
        systemd: path("a"),
        pcrlock: path("b"),
        keep: vec!["k".to_string()],
    })
    .call();
    assert!(matches!(
        task,
        Task::Gc(args) if show(&args.systemd) == "a" && show(&args.pcrlock) == "b"
            && args.keep == vec!["k".to_string()]
    ));
}

#[test]
fn unsigned_installation_must_be_allowed() {
    assert_eq!(install_signing(true, Some(false), None), Signing::Unsigned);
    assert_eq!(
        install_signing(false, Some(false), Some(false)),
        Signing::KeyPair
    );
    assert_eq!(
        install_signing(true, Some(true), Some(false)),
        Signing::KeyPair
    );
    assert_eq!(
        install_signing(true, Some(false), Some(true)),
        Signing::KeyPair
    );
}
