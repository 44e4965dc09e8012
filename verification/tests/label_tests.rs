use winbox_stats::label::{host_label, label_for_mount_point, y_label};

#[test]
fn drive_letter_mounts() {
    assert_eq!(label_for_mount_point("C:\\"), "C_Drive");
    assert_eq!(label_for_mount_point("c:/data"), "C_Drive");
    assert_eq!(label_for_mount_point("D:"), "D_Drive");
}

#[test]
fn posix_mounts() {
    assert_eq!(label_for_mount_point("/mnt/data"), "DATA_Drive");
    assert_eq!(label_for_mount_point("/mnt/data/"), "DATA_Drive");
    assert_eq!(label_for_mount_point("/"), "Disk_Drive");
    assert_eq!(label_for_mount_point(""), "Disk_Drive");
    assert_eq!(label_for_mount_point("///"), "Disk_Drive");
    assert_eq!(label_for_mount_point("/mnt/da:ta"), "DATA_Drive");
    assert_eq!(label_for_mount_point("plain"), "PLAIN_Drive");
}

#[test]
fn host_labels() {
    assert_eq!(host_label(Some("myhost")), "MYHOST");
    assert_eq!(host_label(Some("Web-01")), "WEB-01");
    assert_eq!(host_label(None), "UNKNOWN");
}

#[test]
fn y_labels() {
    assert_eq!(y_label("RAM"), "RAM % Usage");
    assert_eq!(y_label("ram"), "RAM % Usage");
    assert_eq!(y_label("CPU"), "CPU % Usage");
    assert_eq!(y_label("cpu"), "CPU % Usage");
    assert_eq!(y_label("C_Drive"), "HDD % Usage");
    assert_eq!(y_label("data_drive"), "HDD % Usage");
    assert_eq!(y_label("weird"), "Value");
    assert_eq!(y_label(""), "Value");
}
