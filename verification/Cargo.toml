[package]
name = "wg_p2p"
version = "0.1.0"
edition = "2021"
publish = false

[dependencies]
crslmnl = "*"
docopt = "*"
drunken_bishop = "*"
gio-sys = "0.6"
glib = "0.5"
glib-sys = "0.6"
gobject-sys = "0.6"
gtk = "0.4"
gtk-sys = "0.6"
libc = "0.2"
time = "0.1"
