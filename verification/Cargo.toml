[package]
name = "rhymonic"
version = "0.1.0"
edition = "2021"
publish = false

[dependencies]
diesel = { version = "2.3", features = ["sqlite", "r2d2", "returning_clauses_for_sqlite_3_35"] }
diesel_migrations = "2.3"
directories = "6"
lofty = "0.25"
rayon = "1"
rodio = "0.23"
souvlaki = "0.8"
walkdir = "2"
