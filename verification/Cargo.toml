[package]
name = "rs-drivelist"
version = "0.9.0"
edition = "2021"
publish = false

[dependencies]
anyhow = "1"
json = "0.12"
winapi = { version = "0.3", features = ["setupapi", "winioctl", "handleapi", "cfgmgr32", "errhandlingapi", "fileapi", "winnt", "ioapiset", "winbase", "processenv", "minwindef", "winerror"] }
