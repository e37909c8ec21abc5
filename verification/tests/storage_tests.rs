use coraos::storage::{
    block_devices_from_lsblk, bool_to_yn, ftp_user_message, ftp_user_plan, ftp_userdel_args,
    ftp_users_from_passwd, mount_plan, mounted_message, mounts_from_df, parse_mdstat,
    parse_vsftpd_config, raid_create_plan, raid_created_message, raid_delete_args,
    raid_deleted_message, unmount_args, unmounted_message, vsftpd_config_text, FtpConfigUpdate,
    FtpUserRequest, MountRequest, RaidCreateRequest,
};

fn strings(v: &[&str]) -> Vec<String> {
    v.iter().map(|s| s.to_string()).collect()
}

#[test]
fn vsftpd_config_is_written_in_full() {
    let u = FtpConfigUpdate {
        anonymous_enable: false,
        local_enable: true,
        write_enable: true,
        chroot_local_user: false,
        listen_port: 21,
        pasv_min_port: 40000,
        pasv_max_port: 40100,
        max_clients: 50,
    };
    assert_eq!(
        vsftpd_config_text(&u),
        "listen=YES\nlisten_ipv6=NO\nanonymous_enable=NO\nlocal_enable=YES\nwrite_enable=YES\nchroot_local_user=NO\nlisten_port=21\npasv_min_port=40000\npasv_max_port=40100\nmax_clients=50\npam_service_name=vsftpd\nssl_enable=NO\n"
    );
    assert_eq!(bool_to_yn(true), "YES");
    assert_eq!(bool_to_yn(false), "NO");
}

#[test]
fn vsftpd_config_is_read_back() {
    let e = parse_vsftpd_config("# comment=1\nlisten=YES\n  a = b = c \nnoequals\n#x\n");
    assert_eq!(e.len(), 2);
    assert_eq!((e[0].key.as_str(), e[0].value.as_str()), ("listen", "YES"));
    assert_eq!((e[1].key.as_str(), e[1].value.as_str()), ("a", "b = c"));
}

#[test]
fn written_vsftpd_config_reads_back_as_its_settings() {
    let u = FtpConfigUpdate {
        anonymous_enable: true,
        local_enable: false,
        write_enable: false,
        chroot_local_user: true,
        listen_port: 2121,
        pasv_min_port: 0,
        pasv_max_port: 65535,
        max_clients: 7,
    };
    let e = parse_vsftpd_config(&vsftpd_config_text(&u));
    let got: Vec<(&str, &str)> = e.iter().map(|x| (x.key.as_str(), x.value.as_str())).collect();
    assert_eq!(
        got,
        vec![
            ("listen", "YES"),
            ("listen_ipv6", "NO"),
            ("anonymous_enable", "YES"),
            ("local_enable", "NO"),
            ("write_enable", "NO"),
            ("chroot_local_user", "YES"),
            ("listen_port", "2121"),
            ("pasv_min_port", "0"),
            ("pasv_max_port", "65535"),
            ("max_clients", "7"),
            ("pam_service_name", "vsftpd"),
            ("ssl_enable", "NO"),
        ]
    );
}

#[test]
fn ftp_accounts_from_passwd() {
    let passwd = "root:x:0:0:root:/root:/bin/bash\nbob:x:1001:1001::/srv/ftp/bob:/usr/sbin/nologin\nftp:x:107:114:ftp daemon,,,:/srv/ftp:/usr/sbin/nologin\nvsftpd\n";
    assert_eq!(ftp_users_from_passwd(passwd), strings(&["bob", "vsftpd"]));
}

#[test]
fn mdstat_arrays() {
    let mdstat = "Personalities : [raid1]\nmd0 : active raid1 sdb1[1] sda1[0]\n      1953382464 blocks super 1.2 [2/2] [UU]\n\nmd1 : active raid5 sdc[0] sdd[1] [x]\nunused devices: <none>\n";
    let a = parse_mdstat(mdstat);
    assert_eq!(a.len(), 2);
    assert_eq!(a[0].name, "md0");
    assert_eq!(a[0].state, "active");
    assert_eq!(a[0].level, "raid1");
    assert_eq!(a[0].devices, strings(&["sdb1", "sda1"]));
    assert_eq!(a[0].active_devices, "2");
    assert_eq!(a[0].size, "blocks");
    assert_eq!(a[1].devices, strings(&["sdc", "sdd"]));
    assert_eq!(a[1].size, "");
    assert!(parse_mdstat("md9 : inactive\n").is_empty());
}

fn raid(level: &str, devices: &[&str]) -> RaidCreateRequest {
    RaidCreateRequest { name: "data".into(), level: level.into(), devices: strings(devices) }
}

#[test]
fn raid_creation_checks_and_arguments() {
    let args = raid_create_plan(&raid("1", &["/dev/sda", "/dev/sdb"])).ok().unwrap();
    assert_eq!(
        args,
        strings(&["-n", "mdadm", "--create", "/dev/md/data", "--level", "1", "--raid-devices", "2", "/dev/sda", "/dev/sdb", "--run"])
    );
    let e = raid_create_plan(&raid("2", &["/dev/sda", "/dev/sdb"])).err().unwrap();
    assert_eq!((e.status, e.message.as_str()), (400, "Invalid RAID level. Use: 0, 1, 5, 6, or 10"));
    let e = raid_create_plan(&raid("10", &["/dev/sda"])).err().unwrap();
    assert_eq!(e.message, "At least 2 devices required");
    let e = raid_create_plan(&raid("5", &["/dev/sda", "/tmp/x", "/dev/../y"])).err().unwrap();
    assert_eq!(e.message, "Invalid device: /tmp/x");
    let e = raid_create_plan(&raid("0", &["/dev/sda", "/dev/../y"])).err().unwrap();
    assert_eq!(e.message, "Invalid device: /dev/../y");
    assert_eq!(raid_created_message("data", "1"), "RAID array 'data' created (level 1)");
    let (stop, remove) = raid_delete_args("data");
    assert_eq!(stop, strings(&["-n", "mdadm", "--stop", "/dev/md/data"]));
    assert_eq!(remove, strings(&["-n", "mdadm", "--remove", "/dev/md/data"]));
    assert_eq!(raid_deleted_message("data"), "RAID array 'data' stopped and removed");
}

fn mount(device: &str, mp: &str, fs: &str, opts: Option<&str>, persistent: bool) -> MountRequest {
    MountRequest {
        device: device.into(),
        mount_point: mp.into(),
        filesystem: fs.into(),
        options: opts.map(|s| s.into()),
        persistent,
    }
}

#[test]
fn mount_checks_and_commands() {
    let p = mount_plan(&mount("/dev/sdb1", "/mnt/data", "ext4", Some("noatime"), true)).ok().unwrap();
    assert_eq!(p.mkdir_args, strings(&["-n", "mkdir", "-p", "/mnt/data"]));
    assert_eq!(p.mount_args, strings(&["-n", "mount", "-t", "ext4", "-o", "noatime", "/dev/sdb1", "/mnt/data"]));
    assert_eq!(p.fstab_line.as_deref(), Some("/dev/sdb1 /mnt/data ext4 noatime 0 2\n"));
    let p = mount_plan(&mount("/dev/sdb1", "/mnt", "", Some(""), false)).ok().unwrap();
    assert_eq!(p.mount_args, strings(&["-n", "mount", "/dev/sdb1", "/mnt"]));
    assert_eq!(p.fstab_line, None);
    let p = mount_plan(&mount("/dev/sdb1", "/mnt", "xfs", None, true)).ok().unwrap();
    assert_eq!(p.fstab_line.as_deref(), Some("/dev/sdb1 /mnt xfs defaults 0 2\n"));
    let e = mount_plan(&mount("sdb1", "/mnt", "", None, false)).err().unwrap();
    assert_eq!((e.status, e.message.as_str()), (400, "Invalid device path"));
    let e = mount_plan(&mount("/dev/sdb1", "mnt", "", None, false)).err().unwrap();
    assert_eq!(e.message, "Invalid mount point");
    let e = mount_plan(&mount("/dev/sdb1", "/mnt/../etc", "", None, false)).err().unwrap();
    assert_eq!(e.message, "Invalid mount point");
    assert_eq!(mounted_message("/dev/sdb1", "/mnt"), "Mounted /dev/sdb1 at /mnt");
    assert_eq!(unmount_args("/mnt"), strings(&["-n", "umount", "/mnt"]));
    assert_eq!(unmounted_message("/mnt"), "Unmounted /mnt");
}

#[test]
fn df_output_parses() {
    let out = "Filesystem Mounted on Type Size Used Avail Use%\n/dev/sda1 / ext4 20G 5G 15G 25%\ntmpfs /run tmpfs 1G\n";
    let m = mounts_from_df(out);
    assert_eq!(m.len(), 1);
    assert_eq!(m[0].device, "/dev/sda1");
    assert_eq!(m[0].mount_point, "/");
    assert_eq!(m[0].filesystem, "ext4");
    assert_eq!(m[0].options, "");
    assert_eq!(m[0].use_percent, "25%");
}

#[test]
fn lsblk_output_parses() {
    let out = r#"{"blockdevices": [{"name": "sda", "size": "20G", "type": "disk", "mountpoint": null, "fstype": null}, {"name": "sda1", "size": "19G", "type": "part", "mountpoint": "/", "fstype": "ext4"}]}"#;
    let d = block_devices_from_lsblk(out);
    assert_eq!(d.len(), 2);
    assert_eq!(d[0].name, "/dev/sda");
    assert_eq!(d[0].mountpoint, "");
    assert_eq!(d[1].filesystem, "ext4");
    assert_eq!(d[1].device_type, "part");
    assert!(block_devices_from_lsblk("not json").is_empty());
    assert!(block_devices_from_lsblk("{}").is_empty());
}

#[test]
fn ftp_account_commands() {
    let req = FtpUserRequest { username: "bob_1".into(), password: "pw:x".into(), directory: None };
    let p = ftp_user_plan(&req).ok().unwrap();
    assert_eq!(
        p.useradd_args,
        strings(&["-n", "useradd", "-m", "-d", "/srv/ftp/bob_1", "-s", "/usr/sbin/nologin", "bob_1"])
    );
    assert_eq!(p.chpasswd_input, "bob_1:pw:x");
    let req = FtpUserRequest { username: "eve".into(), password: "p".into(), directory: Some("/data/eve".into()) };
    assert_eq!(ftp_user_plan(&req).ok().unwrap().useradd_args[4], "/data/eve");
    let req = FtpUserRequest { username: "bad name".into(), password: "p".into(), directory: None };
    let e = ftp_user_plan(&req).err().unwrap();
    assert_eq!((e.status, e.message.as_str()), (400, "Invalid username"));
    let req = FtpUserRequest { username: "".into(), password: "p".into(), directory: None };
    assert!(ftp_user_plan(&req).is_ok());
    assert_eq!(ftp_userdel_args("bob"), strings(&["-n", "userdel", "-r", "bob"]));
    assert_eq!(ftp_user_message("bob", true), "FTP user 'bob' created");
    assert_eq!(ftp_user_message("bob", false), "FTP user 'bob' deleted");
}
