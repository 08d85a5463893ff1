[package]
name = "tp_term"
version = "0.1.0"
edition = "2021"
publish = false

[dependencies]
unicode-width = "=0.2.2"
smallvec = "=1.16.4"
libc = "=0.2.191"
error-chain = "=0.12.4"
gtk = "0.18"
gdk = "0.18"
gio = "0.18"
glib = "0.18"
cairo-rs = "0.18"
