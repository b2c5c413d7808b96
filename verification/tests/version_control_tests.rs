use neutron_communicator::settings::structs::UpdateComponent;
use neutron_communicator::state::{RestartFlag, VersionMap};
use neutron_communicator::version_control::recipe_processor::{
    cook_instruction_plans, cook_success, instruction_plan, restart_set_component_version,
    CookbookEntry, FollowUp, Instruction, InstructionPlan, InstructionStep,
};
use neutron_communicator::version_control::security::compare_hash;
use neutron_communicator::version_control::structs::{ManifestEntry, Update, UpdateManifest};
use neutron_communicator::version_control::{
    component_temp_dir, contains_agent, download_url, extracted_path, get_component_log,
    get_component_states, get_recipes, get_temp_folder_path, init_component_versions,
    interpret_manifest_response, leftover_updates_file, recipe_path, render_component_states,
    request_update_manifest, split_self_upgrade, unzip_argv, update_file_path, verify_downloads,
    ComponentPaths, ComponentRecipes, ComponentStateRow, DownloadedUpdate, LogError,
    ManifestDecision, RecipeFile,
};

fn preset(name: &str) -> UpdateComponent {
    UpdateComponent {
        name: String::from(name),
        version_file_path: String::from("/etc/v"),
        permission_user: String::from("svc_user"),
        permission_group: String::from("svc_group"),
        file_permissions: String::from("740"),
        container_name: None,
        service_name: Some(String::from("svc.service")),
        restart_command: String::from("sudo systemctl restart svc.service"),
    }
}

fn update(version: &str, checksum: &str, changelog: &str) -> Update {
    Update {
        chainlink: false,
        checksum: String::from(checksum),
        version: String::from(version),
        changelog: String::from(changelog),
        file_size: None,
    }
}

#[test]
fn path_helpers_are_exact() {
    assert_eq!(get_temp_folder_path(), "/etc/NeutronCommunicator/.vc-temp/version_control/");
    assert_eq!(
        leftover_updates_file(),
        "/etc/NeutronCommunicator/.vc-temp/version_control/unfinished_updates.json"
    );
    assert_eq!(
        component_temp_dir("BlackBox"),
        "/etc/NeutronCommunicator/.vc-temp/version_control/BlackBox"
    );
    assert_eq!(
        update_file_path("BlackBox", "9"),
        "/etc/NeutronCommunicator/.vc-temp/version_control/BlackBox/9"
    );
    assert_eq!(extracted_path("/tmp/BlackBox/9"), "/tmp/BlackBox/9-extracted/");
    assert_eq!(recipe_path("/tmp/BlackBox/9-extracted/"), "/tmp/BlackBox/9-extracted/recipe.json");
    assert_eq!(unzip_argv("/t/9"), vec!["unzip", "/t/9", "-d", "/t/9-extracted"]);
}

#[test]
fn request_urls_are_exact() {
    let mut vm = VersionMap::new();
    assert!(request_update_manifest("a", "u", "p", "LSOC", "stable", &vm).is_none());
    vm.insert("NeutronCommunicator", "1");
    vm.insert("BlackBox", "8");
    let url = request_update_manifest("a", "u", "p", "LSOC", "stable", &vm).unwrap();
    assert_eq!(
        url,
        "https://127.0.0.1:8002/api/versioncontrol?neutronuser=a&username=u&password=p&application=LSOC&branch=stable&components=NeutronCommunicator,BlackBox&versions=1,8"
    );
    let dl = download_url("a", "u", "p", "LSOC", "stable", "BlackBox", "9");
    assert_eq!(
        dl,
        "https://127.0.0.1:8002/version_control/download?neutronuser=a&username=u&password=p&application=LSOC&branch=stable&component=BlackBox&version=9"
    );
}

#[test]
fn manifest_decisions() {
    let manifest = UpdateManifest {
        list: vec![ManifestEntry {
            component: String::from("BlackBox"),
            updates: vec![update("8", "aa", "first"), update("9", "bb", "second")],
        }],
    };
    match interpret_manifest_response(true, false, Some(manifest), String::new()) {
        ManifestDecision::Found { manifest: m, changelogs } => {
            assert_eq!(m.list.len(), 1);
            // Newest update's changelog first, each ended by a blank line.
            assert_eq!(changelogs, "second\r\n\r\nfirst\r\n\r\n");
        }
        _ => panic!("manifest not stored"),
    }
    assert!(matches!(
        interpret_manifest_response(true, false, None, String::new()),
        ManifestDecision::NoUpdates
    ));
    assert!(matches!(
        interpret_manifest_response(false, true, None, String::new()),
        ManifestDecision::EmptyResponse
    ));
    match interpret_manifest_response(false, false, None, String::from("boom")) {
        ManifestDecision::ServerError(m) => assert_eq!(m, "boom"),
        _ => panic!("server error not reported"),
    }
}

#[test]
fn checksum_gate_admits_only_matching_artifacts() {
    // SHA-256 of "hello", lowercase hex.
    let good = "2cf24dba5fb0a30e26e83b2ac5b9e29e1b161e5c1fa7425e73043362938b9824";
    assert!(compare_hash(&b"hello".to_vec(), good));
    assert!(!compare_hash(&b"hello".to_vec(), "bbbb"));
    // SHA-256 of the empty input: the wrapper really hashes.
    assert!(compare_hash(
        &Vec::new(),
        "e3b0c44298fc1c149afbf4c8996fb92427ae41e4649b934ca495991b7852b855"
    ));
}

#[test]
fn checksum_mismatch_marks_the_file_dirty() {
    // The checksum-mismatch scenario: the bad artifact lands in the dirty
    // set (to be deleted) and never in the verified one.
    let downloads = vec![
        DownloadedUpdate {
            path: String::from("/t/c/1"),
            data: b"hello".to_vec(),
            checksum: String::from(
                "2cf24dba5fb0a30e26e83b2ac5b9e29e1b161e5c1fa7425e73043362938b9824",
            ),
        },
        DownloadedUpdate {
            path: String::from("/t/c/2"),
            data: b"hello".to_vec(),
            checksum: String::from("bbbb"),
        },
    ];
    let (kept, dirty) = verify_downloads(downloads);
    assert_eq!(kept, vec![String::from("/t/c/1")]);
    assert_eq!(dirty, vec![String::from("/t/c/2")]);
}

#[test]
fn self_upgrade_split() {
    // The self-upgrade scenario: the agent's entries are isolated and the
    // leftover set holds exactly the other components' extracted paths.
    let list = vec![
        ComponentPaths {
            component: String::from("NeutronCommunicator"),
            paths: vec![String::from("/t/NeutronCommunicator/2-extracted/")],
        },
        ComponentPaths {
            component: String::from("BlackBox"),
            paths: vec![String::from("/t/BlackBox/9-extracted/")],
        },
    ];
    assert!(contains_agent(&list));
    let (neco, others) = split_self_upgrade(list);
    assert_eq!(neco.len(), 1);
    assert_eq!(neco[0].component, "NeutronCommunicator");
    assert_eq!(others.len(), 1);
    assert_eq!(others[0].component, "BlackBox");
    assert_eq!(others[0].paths, vec![String::from("/t/BlackBox/9-extracted/")]);
    assert!(!contains_agent(&others));
}

#[test]
fn cookbook_planning() {
    let recipes = vec![ComponentRecipes {
        component: String::from("svc"),
        recipes: vec![
            RecipeFile {
                path: String::from("/t/svc/1-extracted/"),
                instructions: Some(vec![
                    Instruction {
                        step: InstructionStep::Copy {
                            file_path: String::from("bin/svc"),
                            destination: String::from("/usr/local/"),
                            permission_user: None,
                            permission_group: None,
                            file_permissions: None,
                        },
                        restart: false,
                        version: Some(String::from("1")),
                        absolute_update_path: String::new(),
                    },
                ]),
            },
            RecipeFile {
                path: String::from("/t/svc/2-extracted/"),
                instructions: Some(vec![
                    Instruction {
                        step: InstructionStep::RunCommand {
                            command: String::from("echo hi"),
                        },
                        restart: true,
                        version: Some(String::from("2")),
                        absolute_update_path: String::new(),
                    },
                ]),
            },
        ],
    }];
    let cookbook = get_recipes(recipes, &vec![preset("svc")]);
    assert_eq!(cookbook.len(), 1);
    let entry = &cookbook[0];
    assert_eq!(entry.component, "svc");
    // Monotonicity: the final version is the last version named anywhere.
    assert_eq!(entry.final_version, "2");
    assert!(entry.restart);
    assert_eq!(entry.restart_command, "sudo systemctl restart svc.service");
    assert_eq!(entry.updates.len(), 2);
    assert_eq!(entry.updates[0].absolute_update_path, "/t/svc/1-extracted/");
    match &entry.updates[0].step {
        InstructionStep::Copy { permission_user, permission_group, file_permissions, .. } => {
            // Missing permissions are filled from the component defaults.
            assert_eq!(permission_user.as_deref(), Some("svc_user"));
            assert_eq!(permission_group.as_deref(), Some("svc_group"));
            assert_eq!(file_permissions.as_deref(), Some("740"));
        }
        _ => panic!("copy step lost"),
    }
}

#[test]
fn component_without_version_is_skipped() {
    let recipes = vec![ComponentRecipes {
        component: String::from("svc"),
        recipes: vec![RecipeFile {
            path: String::from("/t/svc/1-extracted/"),
            instructions: Some(vec![Instruction {
                step: InstructionStep::RunCommand { command: String::from("echo") },
                restart: false,
                version: None,
                absolute_update_path: String::new(),
            }]),
        }],
    }];
    let cookbook = get_recipes(recipes, &vec![preset("svc")]);
    assert!(cookbook.is_empty());
}

#[test]
fn copy_plan_roots_the_source_first() {
    let instr = Instruction {
        step: InstructionStep::Copy {
            file_path: String::from("bin/svc"),
            destination: String::from("/usr/local/"),
            permission_user: Some(String::from("svc_user")),
            permission_group: Some(String::from("svc_group")),
            file_permissions: Some(String::from("740")),
        },
        restart: false,
        version: None,
        absolute_update_path: String::from("/t/svc/1-extracted/"),
    };
    match instruction_plan(&instr) {
        InstructionPlan::Copy { pre_chmod, pre_chown, src, dst, post_chmod, post_chown } => {
            assert_eq!(src, "/t/svc/1-extracted/bin/svc");
            assert_eq!(dst, "/usr/local/bin/svc");
            assert_eq!(pre_chmod, vec!["chmod", "740", "/t/svc/1-extracted/bin/svc"]);
            assert_eq!(pre_chown, vec!["chown", "root:root", "/t/svc/1-extracted/bin/svc"]);
            assert_eq!(post_chmod, vec!["chmod", "740", "/usr/local/bin/svc"]);
            assert_eq!(post_chown, vec!["chown", "svc_user:svc_group", "/usr/local/bin/svc"]);
        }
        _ => panic!("copy plan lost"),
    }
    let entry = CookbookEntry {
        component: String::from("svc"),
        restart_command: String::new(),
        restart: false,
        final_version: String::from("1"),
        updates: vec![instr],
    };
    // The entry's plan list carries the instructions' exact plans, not just
    // the right count.
    let plans = cook_instruction_plans(&entry);
    assert_eq!(plans.len(), 1);
    match &plans[0] {
        InstructionPlan::Copy { src, dst, post_chown, .. } => {
            assert_eq!(src, "/t/svc/1-extracted/bin/svc");
            assert_eq!(dst, "/usr/local/bin/svc");
            assert_eq!(post_chown, &vec!["chown", "svc_user:svc_group", "/usr/local/bin/svc"]);
        }
        _ => panic!("copy plan lost in the entry's plan list"),
    }
}

#[test]
fn restart_commit_for_the_agent_raises_the_flag() {
    let mut versions = VersionMap::new();
    versions.insert("NeutronCommunicator", "1");
    let mut flag = RestartFlag::new();
    assert!(!flag.is_requested());
    let (follow, ok) = restart_set_component_version(
        true,
        "NeutronCommunicator",
        "",
        "2",
        &mut versions,
        &mut flag,
    );
    assert!(matches!(follow, FollowUp::Nothing));
    assert!(ok);
    // The flag is up and stays up.
    assert!(flag.is_requested());
    flag.request();
    assert!(flag.is_requested());
    // The versions table now carries the final version.
    assert_eq!(versions.get("NeutronCommunicator"), Some(String::from("2")));
}

#[test]
fn restart_commit_without_restart_resumes_leftovers() {
    let mut versions = VersionMap::new();
    versions.insert("NeutronCommunicator", "1");
    let mut flag = RestartFlag::new();
    let (follow, ok) = restart_set_component_version(
        false,
        "NeutronCommunicator",
        "",
        "2",
        &mut versions,
        &mut flag,
    );
    assert!(matches!(follow, FollowUp::InstallLeftovers));
    assert!(ok);
    assert!(!flag.is_requested());
}

#[test]
fn restart_commit_for_other_components_runs_their_command() {
    let mut versions = VersionMap::new();
    let mut flag = RestartFlag::new();
    let (follow, ok) =
        restart_set_component_version(true, "svc", "sudo restart svc", "3", &mut versions, &mut flag);
    match follow {
        FollowUp::RunRestartCommand(c) => assert_eq!(c, "sudo restart svc"),
        _ => panic!("restart command lost"),
    }
    // The component had no entry yet: reported for the caller's warning.
    assert!(!ok);
    assert!(!flag.is_requested());
    assert_eq!(versions.get("svc"), Some(String::from("3")));
}

#[test]
fn cook_outcome_is_the_last_component() {
    assert!(cook_success(&vec![]));
    assert!(cook_success(&vec![false, true]));
    assert!(!cook_success(&vec![true, false]));
}

#[test]
fn version_table_initialization() {
    let vm = init_component_versions(vec![
        (String::from("BlackBox"), Some(String::from("  8\n"))),
        (String::from("Web"), None),
    ]);
    assert_eq!(vm.get("NeutronCommunicator"), Some(String::from("0.1.0")));
    assert_eq!(vm.get("BlackBox"), Some(String::from("8")));
    assert!(vm.get("Web").is_none());
    assert_eq!(vm.len(), 2);
    assert_eq!(vm.keys(), vec!["NeutronCommunicator", "BlackBox"]);
    assert_eq!(vm.values(), vec!["0.1.0", "8"]);
}

#[test]
fn component_states_queries_and_report() {
    let mut both = preset("svc");
    both.container_name = Some(String::from("svc_box"));
    let agent = UpdateComponent {
        name: String::from("NeutronCommunicator"),
        ..preset("ignored")
    };
    let mut vm = VersionMap::new();
    vm.insert("svc", "3");
    let queries = get_component_states(&vec![agent, both], &vm);
    assert_eq!(queries.len(), 2);
    assert_eq!(queries[0].component, "svc - Container");
    assert_eq!(queries[0].version, "3");
    assert_eq!(queries[0].command, "docker ps -qf \"name=^svc_box$\"");
    assert_eq!(queries[1].component, "svc - Service");
    assert_eq!(queries[1].command, "systemctl is-active svc.service");

    let report = render_component_states(
        "cu",
        &vec![ComponentStateRow {
            component: String::from("svc - Service"),
            version: String::from("3"),
            state: true,
        }],
    );
    assert_eq!(
        report,
        "{\"id\":\"cu\",\"components\":[{\"component\":\"svc - Service\",\"version\":\"3\",\"state\":true}]}"
    );
}

#[test]
fn unknown_version_is_reported_as_unknown() {
    let vm = VersionMap::new();
    let queries = get_component_states(&vec![preset("svc")], &vm);
    assert_eq!(queries[0].version, "Unknown");
}

#[test]
fn component_log_query() {
    // The command-log scenario: the query resolves to the journal command
    // of the named service and keeps the request identifier.
    let comps = vec![preset("svc")];
    let q = get_component_log("r1", "svc - Service", &comps).unwrap();
    assert_eq!(q.request, "r1");
    assert_eq!(q.command, "journalctl --no-pager -u svc.service");

    assert!(matches!(
        get_component_log("r1", "svc", &comps),
        Err(LogError::BadComponentField)
    ));
    assert!(matches!(
        get_component_log("r1", "svc - Thing", &comps),
        Err(LogError::UnknownType)
    ));
    assert!(matches!(
        get_component_log("r1", "ghost - Service", &comps),
        Err(LogError::NotFound)
    ));
    assert!(matches!(
        get_component_log("r1", "svc - Container", &comps),
        Err(LogError::NoLogSource)
    ));
    assert!(matches!(
        get_component_log("r1", "a - b - c", &comps),
        Err(LogError::BadComponentField)
    ));
}
