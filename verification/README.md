# wnacg_downloader

A downloader for comics of the wnacg site: a command-line tool that searches
the site, shows a comic, downloads its images into a folder that becomes a
zip archive and notifies a webhook or a Bark server; and an HTTP task API
that runs the command-line tool for its callers and keeps their download
tasks in SQLite.

The decisions of both are a library verified with Verus (`src/`):

- `comic_id`: reading a comic id from an id, a page URL or a page's HTML;
- `naming`: safe folder and file names, UTF-8 truncation, zip entry order;
- `images`: image formats, how each image is saved, what a resumed
  download keeps and skips;
- `img_list`: the image list embedded in a gallery page;
- `listing`: values read off list and detail pages (absolute image
  addresses, page counts, the last result page);
- `download_run`: the course of a download (retries, archiving, clean-up,
  the final notification) and of each image fetch;
- `tasks`: download tasks of the task API and their store;
- `query`, `site`: the command lines and URLs the programs build;
- `notify`, `report`, `options`, `commands`, `errors`: notifications,
  printed summaries, settings, the desktop app's decisions, error chains;
- `text`: character-level string operations and their specifications.

`app/` holds the programs themselves (`main`, HTTP, files, processes,
SQLite, HTML scraping); `tests/` runs the library on concrete values.
