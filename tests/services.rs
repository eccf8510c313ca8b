use beastmine_launcher::services::{ModpackService, NotificationService, SkinService, SystemService};

#[test]
fn collaborator_services_answer_fixed_values() {
    let skin = SkinService::new();
    assert_eq!(skin.upload(vec![1, 2, 3], true), Ok(true));
    assert_eq!(skin.get_url("abc"), Ok(String::new()));
    assert_eq!(skin.reset(), Ok(true));
    assert_eq!(NotificationService::new().show("t", "b", None), Ok(()));
    assert_eq!(ModpackService::new().install("m"), Ok(true));
    assert_eq!(ModpackService::new().uninstall("m"), Ok(true));
    assert_eq!(SystemService::new().open_directory("/"), Ok(()));
}
