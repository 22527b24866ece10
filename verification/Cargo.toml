[package]
name = "stargn"
version = "0.1.0"
edition = "2021"
publish = false

[dependencies]
# starlark 0.9.0 asks for allocative 0.3 and builds only against this release
# of it: the later ones are made for another hashbrown than starlark_map uses.
allocative = "=0.3.0"
anyhow = "=1.0.104"
autocxx = "=0.30.0"
cxx = "=1.0.205"
starlark = "=0.9.0"
