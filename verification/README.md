# photoweb

Builds a web page (`index.shtml`) for the photographs of a directory, with,
for each, its date, the nearest named place (city and country, from the
Geonames `allCountries.txt` and `countryInfo.txt` files), camera, lens,
exposure, a link to its position on a map and its size. What is given on the
command line (camera, lens or lenses separated by commas, location) takes
precedence over what is extracted from the photographs.

Layout:

- `src/` is the library, verified with Verus:
  - `text.rs`: splitting on a separator, decimal digits, text comparisons,
    byte-length cuts;
  - `lens.rs`: which lens took a photograph (calls the `regex` crate);
  - `photo.rs`: what the EXIF fields of a photograph tell;
  - `places.rs`: kept places, country names, nearest place, captions;
  - `page.rs`: the HTML of the page.
- `app/main.rs` is the program: command line, files, EXIF and image reading,
  directory walk, and the floating-point distances.
- `tests/` exercises the library.
