[package]
name = "listing_watch"
version = "0.1.0"
edition = "2021"
publish = false

[dependencies]
dotenv = "*"
form_urlencoded = "*"
reqwest = { version = "*", features = ["blocking"] }
rodio = "*"
scraper = "*"
